//! The authoritative account ledger.
//!
//! Accounts are stored densely: the account identifier is the index into the
//! account vector, assigned in creation order and never reused. The ledger is
//! mutated only through the primitives here, each specified against the
//! ledger's view: a sequence of `AccountView`s whose balances are total maps
//! from token to amount.

use vstd::prelude::*;
use crate::bytes::{bytes_eq, slice_to_vec};
use crate::operations::zero_seq;
use crate::params::{ADDRESS_BYTES, PUBKEY_HASH_BYTES};
use crate::tx::{AccountId, Nonce, TokenId};

verus! {

/// The mathematical value of an account: balances as a total map.
#[verifier::ext_equal]
pub struct AccountView {
    pub address: Seq<u8>,
    pub pub_key_hash: Seq<u8>,
    pub nonce: Nonce,
    pub balances: Map<TokenId, u128>,
}

/// A fresh account: zero key hash, zero nonce, all balances zero.
pub open spec fn spec_new_account(addr: Seq<u8>) -> AccountView {
    AccountView {
        address: addr,
        pub_key_hash: zero_seq(PUBKEY_HASH_BYTES as nat),
        nonce: 0,
        balances: Map::new(|t: TokenId| true, |t: TokenId| 0u128),
    }
}

/// Addition capped at the balance field's range. The on-chain balance field
/// is 128 bits wide; a correctly operated deployment never reaches the cap.
pub open spec fn sat_add(a: u128, b: u128) -> u128 {
    if a + b > u128::MAX {
        u128::MAX
    } else {
        (a + b) as u128
    }
}

/// The account with `amount` of `token` credited.
pub open spec fn spec_credit(a: AccountView, token: TokenId, amount: u128) -> AccountView {
    AccountView { balances: a.balances.insert(token, sat_add(a.balances[token], amount)), ..a }
}

/// The account with `amount` of `token` debited; meaningful when the balance
/// covers the amount.
pub open spec fn spec_debit(a: AccountView, token: TokenId, amount: u128) -> AccountView {
    AccountView {
        balances: a.balances.insert(token, (a.balances[token] - amount) as u128),
        ..a
    }
}

/// The account with its nonce advanced by one.
pub open spec fn spec_bump_nonce(a: AccountView) -> AccountView {
    AccountView { nonce: (a.nonce + 1) as Nonce, ..a }
}

/// The account with its registered key replaced.
pub open spec fn spec_set_pubkey(a: AccountView, pkh: Seq<u8>) -> AccountView {
    AccountView { pub_key_hash: pkh, ..a }
}

/// The first account whose address is `addr`, searching from index `i`.
pub open spec fn view_find_address_from(l: Seq<AccountView>, addr: Seq<u8>, i: nat) -> Option<nat>
    decreases l.len() - i,
{
    if i >= l.len() {
        None
    } else if l[i as int].address == addr {
        Some(i)
    } else {
        view_find_address_from(l, addr, i + 1)
    }
}

/// The first account whose address is `addr`.
pub open spec fn view_find_address(l: Seq<AccountView>, addr: Seq<u8>) -> Option<nat> {
    view_find_address_from(l, addr, 0)
}

/// A found account index is in range and carries the address.
pub proof fn lemma_find_address_in_range(l: Seq<AccountView>, addr: Seq<u8>, from: nat)
    ensures
        view_find_address_from(l, addr, from) matches Some(i) ==> from <= i < l.len() && l[
            i as int
        ].address == addr,
    decreases l.len() - from,
{
    if from < l.len() && l[from as int].address != addr {
        lemma_find_address_in_range(l, addr, from + 1);
    }
}

/// The balance of one token in a stored balance list: the first entry for
/// the token, or zero.
pub open spec fn balance_in(bals: Seq<(TokenId, u128)>, token: TokenId) -> u128
    decreases bals.len(),
{
    if bals.len() == 0 {
        0
    } else if bals[0].0 == token {
        bals[0].1
    } else {
        balance_in(bals.drop_first(), token)
    }
}

/// One account of the ledger.
#[derive(Debug)]
pub struct Account {
    pub address: Vec<u8>,
    pub pub_key_hash: Vec<u8>,
    pub nonce: Nonce,
    pub balances: Vec<(TokenId, u128)>,
}

impl View for Account {
    type V = AccountView;

    open spec fn view(&self) -> AccountView {
        AccountView {
            address: self.address@,
            pub_key_hash: self.pub_key_hash@,
            nonce: self.nonce,
            balances: Map::new(|t: TokenId| true, |t: TokenId| balance_in(self.balances@, t)),
        }
    }
}

/// Well-formedness of an account's mathematical value: fixed field widths.
pub open spec fn account_view_wf(a: AccountView) -> bool {
    &&& a.address.len() == ADDRESS_BYTES
    &&& a.pub_key_hash.len() == PUBKEY_HASH_BYTES
}

pub open spec fn account_wf(a: Account) -> bool {
    account_view_wf(a@)
}

/// Updating the first entry of a token leaves every other token's balance
/// unchanged.
proof fn lemma_balance_in_update_one(
    bals: Seq<(TokenId, u128)>,
    i: int,
    token: TokenId,
    value: u128,
    t: TokenId,
)
    requires
        0 <= i < bals.len(),
        bals[i].0 == token,
        forall|j: int| 0 <= j < i ==> (#[trigger] bals[j]).0 != token,
    ensures
        balance_in(bals.update(i, (token, value)), t) == if t == token {
            value
        } else {
            balance_in(bals, t)
        },
    decreases i,
{
    let updated = bals.update(i, (token, value));
    if i == 0 {
        assert(updated.drop_first() =~= bals.drop_first());
    } else {
        assert(updated.drop_first() =~= bals.drop_first().update(i - 1, (token, value)));
        lemma_balance_in_update_one(bals.drop_first(), i - 1, token, value, t);
    }
}

proof fn lemma_balance_in_update(bals: Seq<(TokenId, u128)>, i: int, token: TokenId, value: u128)
    requires
        0 <= i < bals.len(),
        bals[i].0 == token,
        forall|j: int| 0 <= j < i ==> (#[trigger] bals[j]).0 != token,
    ensures
        forall|t: TokenId| #![auto]
            balance_in(bals.update(i, (token, value)), t) == if t == token {
                value
            } else {
                balance_in(bals, t)
            },
{
    assert forall|t: TokenId| #![auto]
        balance_in(bals.update(i, (token, value)), t) == (if t == token {
            value
        } else {
            balance_in(bals, t)
        }) by {
        lemma_balance_in_update_one(bals, i, token, value, t);
    }
}

/// Appending an entry for an absent token leaves every other token's
/// balance unchanged.
proof fn lemma_balance_in_push_one(
    bals: Seq<(TokenId, u128)>,
    token: TokenId,
    value: u128,
    t: TokenId,
)
    requires
        forall|j: int| 0 <= j < bals.len() ==> (#[trigger] bals[j]).0 != token,
    ensures
        balance_in(bals.push((token, value)), t) == if t == token {
            value
        } else {
            balance_in(bals, t)
        },
    decreases bals.len(),
{
    let pushed = bals.push((token, value));
    if bals.len() == 0 {
        assert(pushed[0] == (token, value));
        assert(pushed.drop_first() =~= Seq::<(TokenId, u128)>::empty());
        assert(balance_in(pushed.drop_first(), t) == 0);
    } else {
        assert(pushed[0] == bals[0]);
        assert(pushed.drop_first() =~= bals.drop_first().push((token, value)));
        lemma_balance_in_push_one(bals.drop_first(), token, value, t);
    }
}

proof fn lemma_balance_in_push(bals: Seq<(TokenId, u128)>, token: TokenId, value: u128)
    requires
        forall|j: int| 0 <= j < bals.len() ==> (#[trigger] bals[j]).0 != token,
    ensures
        forall|t: TokenId| #![auto]
            balance_in(bals.push((token, value)), t) == if t == token {
                value
            } else {
                balance_in(bals, t)
            },
{
    assert forall|t: TokenId| #![auto]
        balance_in(bals.push((token, value)), t) == (if t == token {
            value
        } else {
            balance_in(bals, t)
        }) by {
        lemma_balance_in_push_one(bals, token, value, t);
    }
}

impl Account {
    /// A fresh account at the given address.
    pub fn default_with_address(address: &Vec<u8>) -> (r: Account)
        ensures
            r@ == spec_new_account(address@),
            r.address@ == address@,
            account_wf(r) <==> address@.len() == ADDRESS_BYTES,
    {
        let r = Account {
            address: slice_to_vec(address.as_slice()),
            pub_key_hash: crate::bytes::zero_vec(PUBKEY_HASH_BYTES),
            nonce: 0,
            balances: Vec::new(),
        };
        proof {
            assert(r@ =~= spec_new_account(address@));
        }
        r
    }

    /// The balance of one token.
    pub fn get_balance(&self, token: TokenId) -> (r: u128)
        ensures
            r == self@.balances[token],
    {
        let n = self.balances.len();
        let mut i: usize = 0;
        proof {
            assert(self.balances@.skip(0) =~= self.balances@);
        }
        while i < n
            invariant
                n == self.balances@.len(),
                i <= n,
                balance_in(self.balances@, token) == balance_in(
                    self.balances@.skip(i as int),
                    token,
                ),
            decreases n - i,
        {
            let (t, v) = self.balances[i];
            proof {
                let tail = self.balances@.skip(i as int);
                assert(tail[0] == self.balances@[i as int]);
                assert(tail.drop_first() =~= self.balances@.skip(i + 1 as int));
            }
            if t == token {
                return v;
            }
            i += 1;
        }
        proof {
            assert(self.balances@.skip(n as int) =~= Seq::empty());
        }
        0
    }

    /// Sets the balance of one token, leaving all else unchanged.
    pub fn set_balance(&mut self, token: TokenId, value: u128)
        ensures
            final(self)@ == (AccountView {
                balances: old(self)@.balances.insert(token, value),
                ..old(self)@
            }),
            final(self).address == old(self).address,
            final(self).pub_key_hash == old(self).pub_key_hash,
            final(self).nonce == old(self).nonce,
    {
        let n = self.balances.len();
        let mut i: usize = 0;
        while i < n
            invariant
                self == old(self),
                n == self.balances@.len(),
                i <= n,
                forall|j: int| 0 <= j < i ==> (#[trigger] self.balances@[j]).0 != token,
            decreases n - i,
        {
            let (t, _v) = self.balances[i];
            if t == token {
                self.balances.set(i, (token, value));
                proof {
                    lemma_balance_in_update(old(self).balances@, i as int, token, value);
                    assert(self@ =~= (AccountView {
                        balances: old(self)@.balances.insert(token, value),
                        ..old(self)@
                    }));
                }
                return;
            }
            i += 1;
        }
        self.balances.push((token, value));
        proof {
            lemma_balance_in_push(old(self).balances@, token, value);
            assert(self@ =~= (AccountView {
                balances: old(self)@.balances.insert(token, value),
                ..old(self)@
            }));
        }
    }

    /// Credits `amount` of `token`, capped at the balance field's range.
    pub fn credit(&mut self, token: TokenId, amount: u128)
        ensures
            final(self)@ == spec_credit(old(self)@, token, amount),
            final(self).address == old(self).address,
            final(self).pub_key_hash == old(self).pub_key_hash,
            final(self).nonce == old(self).nonce,
    {
        let current = self.get_balance(token);
        let value: u128 = if current > u128::MAX - amount {
            u128::MAX
        } else {
            current + amount
        };
        self.set_balance(token, value);
    }

    /// Debits `amount` of `token`; the balance must cover it.
    pub fn debit(&mut self, token: TokenId, amount: u128)
        requires
            old(self)@.balances[token] >= amount,
        ensures
            final(self)@ == spec_debit(old(self)@, token, amount),
            final(self).address == old(self).address,
            final(self).pub_key_hash == old(self).pub_key_hash,
            final(self).nonce == old(self).nonce,
    {
        let current = self.get_balance(token);
        self.set_balance(token, current - amount);
    }
}

impl Clone for Account {
    fn clone(&self) -> (r: Self)
        ensures
            r@ == self@,
    {
        let n = self.balances.len();
        let mut balances: Vec<(TokenId, u128)> = Vec::new();
        let mut i: usize = 0;
        while i < n
            invariant
                n == self.balances@.len(),
                i <= n,
                balances@ == self.balances@.subrange(0, i as int),
            decreases n - i,
        {
            balances.push(self.balances[i]);
            proof {
                assert(balances@ =~= self.balances@.subrange(0, i + 1 as int));
            }
            i += 1;
        }
        proof {
            assert(balances@ =~= self.balances@);
        }
        let r = Account {
            address: slice_to_vec(self.address.as_slice()),
            pub_key_hash: slice_to_vec(self.pub_key_hash.as_slice()),
            nonce: self.nonce,
            balances,
        };
        proof {
            assert(r@ =~= self@);
        }
        r
    }
}

/// The authoritative mapping from account identifier to account state.
#[derive(Debug)]
pub struct AccountLedger {
    pub accounts: Vec<Account>,
}

impl View for AccountLedger {
    type V = Seq<AccountView>;

    open spec fn view(&self) -> Seq<AccountView> {
        Seq::new(self.accounts@.len(), |i: int| self.accounts@[i]@)
    }
}

pub open spec fn ledger_wf(l: AccountLedger) -> bool {
    &&& forall|i: int| 0 <= i < l@.len() ==> account_view_wf(#[trigger] l@[i])
    &&& l@.len() <= u32::MAX
}

impl AccountLedger {
    /// An empty ledger.
    pub fn new() -> (r: AccountLedger)
        ensures
            r@ =~= Seq::<AccountView>::empty(),
            ledger_wf(r),
    {
        AccountLedger { accounts: Vec::new() }
    }

    /// How many accounts exist.
    pub fn len(&self) -> (r: usize)
        ensures
            r == self@.len(),
    {
        self.accounts.len()
    }

    /// The account with the given identifier.
    pub fn get_account(&self, id: AccountId) -> (r: Option<&Account>)
        ensures
            (id as nat) < self@.len() ==> (r matches Some(a) && a@ == self@[id as int]),
            (id as nat) >= self@.len() ==> r is None,
    {
        if (id as usize) < self.accounts.len() {
            Some(&self.accounts[id as usize])
        } else {
            None
        }
    }

    /// The first account at the given address, with its identifier.
    pub fn find_by_address(&self, address: &[u8]) -> (r: Option<(AccountId, &Account)>)
        requires
            self@.len() <= u32::MAX,
        ensures
            match r {
                Some((id, a)) => {
                    &&& view_find_address(self@, address@) == Some(id as nat)
                    &&& (id as nat) < self@.len()
                    &&& a@ == self@[id as int]
                },
                None => view_find_address(self@, address@) is None,
            },
    {
        let n = self.accounts.len();
        let mut i: usize = 0;
        while i < n
            invariant
                n == self.accounts@.len(),
                n == self@.len(),
                n <= u32::MAX,
                i <= n,
                view_find_address(self@, address@) == view_find_address_from(
                    self@,
                    address@,
                    i as nat,
                ),
            decreases n - i,
        {
            if bytes_eq(self.accounts[i].address.as_slice(), address) {
                assert(self@[i as int].address == address@);
                return Some((i as u32, &self.accounts[i]));
            }
            assert(self@[i as int].address != address@);
            i += 1;
        }
        None
    }

    /// Debits a spend (amount plus fee) and advances the spender's nonce.
    pub fn spend_from(&mut self, id: AccountId, token: TokenId, total: u128)
        requires
            (id as nat) < old(self)@.len(),
            old(self)@[id as int].balances[token] >= total,
            old(self)@[id as int].nonce < u32::MAX,
        ensures
            final(self)@ == old(self)@.update(
                id as int,
                spec_bump_nonce(spec_debit(old(self)@[id as int], token, total)),
            ),
            final(self).accounts@.len() == old(self).accounts@.len(),
            forall|i: int|
                0 <= i < old(self).accounts@.len() && account_wf(
                    #[trigger] old(self).accounts@[i],
                ) ==> account_wf(final(self).accounts@[i]),
    {
        let account = &mut self.accounts[id as usize];
        account.debit(token, total);
        let new_nonce = account.nonce + 1;
        account.nonce = new_nonce;
        proof {
            assert(self@ =~= old(self)@.update(
                id as int,
                spec_bump_nonce(spec_debit(old(self)@[id as int], token, total)),
            ));
        }
    }

    /// Credits one account.
    pub fn credit_to(&mut self, id: AccountId, token: TokenId, amount: u128)
        requires
            (id as nat) < old(self)@.len(),
        ensures
            final(self)@ == old(self)@.update(
                id as int,
                spec_credit(old(self)@[id as int], token, amount),
            ),
            final(self).accounts@.len() == old(self).accounts@.len(),
            forall|i: int|
                0 <= i < old(self).accounts@.len() && account_wf(
                    #[trigger] old(self).accounts@[i],
                ) ==> account_wf(final(self).accounts@[i]),
    {
        let account = &mut self.accounts[id as usize];
        account.credit(token, amount);
        proof {
            assert(self@ =~= old(self)@.update(
                id as int,
                spec_credit(old(self)@[id as int], token, amount),
            ));
        }
    }

    /// Debits one account without touching its nonce (an L1-authorised
    /// withdrawal spends no nonce).
    pub fn debit_from(&mut self, id: AccountId, token: TokenId, amount: u128)
        requires
            (id as nat) < old(self)@.len(),
            old(self)@[id as int].balances[token] >= amount,
        ensures
            final(self)@ == old(self)@.update(
                id as int,
                spec_debit(old(self)@[id as int], token, amount),
            ),
    {
        let account = &mut self.accounts[id as usize];
        account.debit(token, amount);
        proof {
            assert(self@ =~= old(self)@.update(
                id as int,
                spec_debit(old(self)@[id as int], token, amount),
            ));
        }
    }

    /// Registers a new public-key hash, advances the nonce and debits the
    /// fee, in one step.
    pub fn register_pubkey(&mut self, id: AccountId, pkh: &Vec<u8>, fee_token: TokenId, fee: u128)
        requires
            (id as nat) < old(self)@.len(),
            old(self)@[id as int].balances[fee_token] >= fee,
            old(self)@[id as int].nonce < u32::MAX,
            pkh@.len() == PUBKEY_HASH_BYTES,
        ensures
            final(self)@ == old(self)@.update(
                id as int,
                spec_bump_nonce(
                    spec_set_pubkey(spec_debit(old(self)@[id as int], fee_token, fee), pkh@),
                ),
            ),
            final(self).accounts@.len() == old(self).accounts@.len(),
            forall|i: int|
                0 <= i < old(self).accounts@.len() && account_wf(
                    #[trigger] old(self).accounts@[i],
                ) ==> account_wf(final(self).accounts@[i]),
    {
        let new_hash = slice_to_vec(pkh.as_slice());
        let account = &mut self.accounts[id as usize];
        account.debit(fee_token, fee);
        account.pub_key_hash = new_hash;
        let new_nonce = account.nonce + 1;
        account.nonce = new_nonce;
        proof {
            assert(self@ =~= old(self)@.update(
                id as int,
                spec_bump_nonce(
                    spec_set_pubkey(spec_debit(old(self)@[id as int], fee_token, fee), pkh@),
                ),
            ));
        }
    }

    /// Creates a fresh account at the address and returns its identifier.
    pub fn create_account(&mut self, address: &Vec<u8>) -> (r: AccountId)
        requires
            old(self)@.len() < u32::MAX,
        ensures
            final(self)@ == old(self)@.push(spec_new_account(address@)),
            r as nat == old(self)@.len(),
            final(self).accounts@.len() == old(self).accounts@.len() + 1,
            forall|i: int|
                0 <= i < old(self).accounts@.len() ==> final(self).accounts@[i] == old(
                    self,
                ).accounts@[i],
            account_wf(final(self).accounts@[old(self).accounts@.len() as int]) <==> address@.len()
                == ADDRESS_BYTES,
    {
        let id = self.accounts.len() as u32;
        let account = Account::default_with_address(address);
        self.accounts.push(account);
        proof {
            assert(self@ =~= old(self)@.push(spec_new_account(address@)));
        }
        id
    }
}

} // verus!
