//! The ledger as mathematics: what an account record and a store of records
//! are, and what the sum of all balances is.
//!
//! Names are byte strings, keys are the digests that the host derives from
//! them, and a store is a map from keys to records. An account that holds nothing has no record: reading it
//! gives the empty record, and writing the empty record removes it.

use vstd::prelude::*;
use crate::host::valid_account_id;

verus! {

/// An account as an operation addresses it: by its name, and by the storage
/// key that goes with the name.
pub struct Party {
    pub name: Seq<u8>,
    pub key: Seq<u8>,
}

impl Party {
    /// Whether the name follows the host's rule.
    pub open spec fn valid(self) -> bool {
        valid_account_id(self.name)
    }
}

/// What an account holds: its balance, and for each delegate, by the key of
/// the delegate's name, the amount that this delegate may still move.
pub struct AccountView {
    pub balance: u128,
    pub allowances: Map<Seq<u8>, u128>,
}

impl AccountView {
    /// The record of an account that holds nothing.
    pub open spec fn empty() -> AccountView {
        AccountView { balance: 0, allowances: Map::empty() }
    }

    /// Whether the record holds nothing, so that it need not be stored.
    pub open spec fn is_empty(self) -> bool {
        self.balance == 0 && self.allowances =~= Map::<Seq<u8>, u128>::empty()
    }

    /// The delegates are finitely many, and a cap of zero is never stored.
    pub open spec fn wf(self) -> bool {
        &&& self.allowances.dom().finite()
        &&& forall|k: Seq<u8>| #[trigger]
            self.allowances.contains_key(k) ==> self.allowances[k] > 0
    }

    /// What the delegate with the key `delegate` may still move: zero where
    /// nothing is stored for it.
    pub open spec fn allowance(self, delegate: Seq<u8>) -> u128 {
        if self.allowances.contains_key(delegate) {
            self.allowances[delegate]
        } else {
            0
        }
    }

    /// The record with the cap of `delegate` set to `amount`. A cap of zero is
    /// the absence of the entry.
    pub open spec fn with_allowance(self, delegate: Seq<u8>, amount: u128) -> AccountView {
        if amount > 0 {
            AccountView { allowances: self.allowances.insert(delegate, amount), ..self }
        } else {
            AccountView { allowances: self.allowances.remove(delegate), ..self }
        }
    }

    /// The record with another balance.
    pub open spec fn with_balance(self, balance: u128) -> AccountView {
        AccountView { balance, ..self }
    }
}

/// A store of records, by key.
pub type Accounts = Map<Seq<u8>, AccountView>;

/// The record under `key`: the empty record where none is stored.
pub open spec fn record_at(accounts: Accounts, key: Seq<u8>) -> AccountView {
    if accounts.contains_key(key) {
        accounts[key]
    } else {
        AccountView::empty()
    }
}

/// The store after `record` was written under `key`: an empty record is not
/// kept, and one that was there is removed.
pub open spec fn put_record(accounts: Accounts, key: Seq<u8>, record: AccountView) -> Accounts {
    if record.is_empty() {
        accounts.remove(key)
    } else {
        accounts.insert(key, record)
    }
}

/// The balance under `key`.
pub open spec fn balance_at(accounts: Accounts, key: Seq<u8>) -> u128 {
    record_at(accounts, key).balance
}

/// What the delegate with the key `delegate` may still move from the account
/// under `key`.
pub open spec fn allowance_at(accounts: Accounts, key: Seq<u8>, delegate: Seq<u8>) -> u128 {
    record_at(accounts, key).allowance(delegate)
}

/// The store after `amount` was taken from the balance under `key`.
pub open spec fn debit(accounts: Accounts, key: Seq<u8>, amount: u128) -> Accounts {
    let record = record_at(accounts, key);
    put_record(accounts, key, record.with_balance((record.balance - amount) as u128))
}

/// The store after `amount` was added to the balance under `key`.
pub open spec fn credit(accounts: Accounts, key: Seq<u8>, amount: u128) -> Accounts {
    let record = record_at(accounts, key);
    put_record(accounts, key, record.with_balance((record.balance + amount) as u128))
}

/// The store after the cap of `delegate` on the account under `key` was set to
/// `amount`.
pub open spec fn grant(accounts: Accounts, key: Seq<u8>, delegate: Seq<u8>, amount: u128) -> Accounts {
    put_record(accounts, key, record_at(accounts, key).with_allowance(delegate, amount))
}

/// The records are finitely many, each is well formed, and none is empty.
pub open spec fn store_wf(accounts: Accounts) -> bool {
    &&& accounts.dom().finite()
    &&& forall|k: Seq<u8>| #[trigger]
        accounts.contains_key(k) ==> accounts[k].wf() && !accounts[k].is_empty()
}

/// The sum of the balances of all records.
pub open spec fn sum_balances(accounts: Accounts) -> nat
    decreases accounts.dom().len(),
    when accounts.dom().finite()
    via sum_balances_decreases
{
    if accounts.dom().len() == 0 {
        0
    } else {
        let k = accounts.dom().choose();
        accounts[k].balance as nat + sum_balances(accounts.remove(k))
    }
}

#[via_fn]
proof fn sum_balances_decreases(accounts: Accounts) {
    if accounts.dom().len() != 0 {
        let k = accounts.dom().choose();
        vstd::set_lib::lemma_set_empty_equivalency_len(accounts.dom());
        assert(accounts.dom().contains(k));
        assert(accounts.remove(k).dom() =~= accounts.dom().remove(k));
    }
}

/// The sum of all balances is the balance under any one key plus the sum over
/// the rest.
pub proof fn lemma_sum_remove(accounts: Accounts, key: Seq<u8>)
    requires
        accounts.dom().finite(),
        accounts.contains_key(key),
    ensures
        sum_balances(accounts) == accounts[key].balance + sum_balances(accounts.remove(key)),
    decreases accounts.dom().len(),
{
    vstd::set_lib::lemma_set_empty_equivalency_len(accounts.dom());
    let k = accounts.dom().choose();
    assert(accounts.dom().contains(k));
    assert(accounts.remove(k).dom() =~= accounts.dom().remove(k));
    assert(accounts.remove(key).dom() =~= accounts.dom().remove(key));
    if k != key {
        lemma_sum_remove(accounts.remove(k), key);
        lemma_sum_remove(accounts.remove(key), k);
        assert(accounts.remove(k).remove(key) =~= accounts.remove(key).remove(k));
    }
}

/// Writing a record under a key changes the sum by the difference between the
/// new balance and the one that was there.
pub proof fn lemma_sum_put(accounts: Accounts, key: Seq<u8>, record: AccountView)
    requires
        accounts.dom().finite(),
    ensures
        put_record(accounts, key, record).dom().finite(),
        sum_balances(put_record(accounts, key, record)) == sum_balances(accounts) - balance_at(
            accounts,
            key,
        ) + record.balance,
{
    let after = put_record(accounts, key, record);
    if accounts.contains_key(key) {
        lemma_sum_remove(accounts, key);
    } else {
        assert(accounts.remove(key) =~= accounts);
    }
    if record.is_empty() {
        assert(after.dom() =~= accounts.dom().remove(key));
    } else {
        assert(after.dom() =~= accounts.dom().insert(key));
        lemma_sum_remove(after, key);
        assert(after.remove(key) =~= accounts.remove(key));
    }
}

/// No balance is larger than the sum of all balances.
pub proof fn lemma_balance_le_sum(accounts: Accounts, key: Seq<u8>)
    requires
        accounts.dom().finite(),
    ensures
        balance_at(accounts, key) <= sum_balances(accounts),
{
    if accounts.contains_key(key) {
        lemma_sum_remove(accounts, key);
    }
}

/// Writing a well-formed record keeps the store well formed.
pub proof fn lemma_put_wf(accounts: Accounts, key: Seq<u8>, record: AccountView)
    requires
        store_wf(accounts),
        record.wf(),
    ensures
        store_wf(put_record(accounts, key, record)),
{
    let after = put_record(accounts, key, record);
    if record.is_empty() {
        assert(after.dom() =~= accounts.dom().remove(key));
    } else {
        assert(after.dom() =~= accounts.dom().insert(key));
    }
}

/// Setting a cap keeps a record well formed.
pub proof fn lemma_with_allowance_wf(record: AccountView, delegate: Seq<u8>, amount: u128)
    requires
        record.wf(),
    ensures
        record.with_allowance(delegate, amount).wf(),
{
    let after = record.with_allowance(delegate, amount);
    if amount > 0 {
        assert(after.allowances.dom() =~= record.allowances.dom().insert(delegate));
    } else {
        assert(after.allowances.dom() =~= record.allowances.dom().remove(delegate));
    }
}

/// What was written under a key is what is read there, and what is read under
/// any other key is as before.
pub proof fn lemma_put_get(accounts: Accounts, key: Seq<u8>, record: AccountView)
    ensures
        record_at(put_record(accounts, key, record), key) == record,
        forall|k: Seq<u8>|
            k != key ==> #[trigger] record_at(put_record(accounts, key, record), k) == record_at(
                accounts,
                k,
            ),
{
    if record.is_empty() {
        assert(record.allowances == Map::<Seq<u8>, u128>::empty());
    }
}

/// Of two writes under one key the second decides.
pub proof fn lemma_put_put(accounts: Accounts, key: Seq<u8>, first: AccountView, second: AccountView)
    ensures
        put_record(put_record(accounts, key, first), key, second) == put_record(
            accounts,
            key,
            second,
        ),
{
    assert(put_record(put_record(accounts, key, first), key, second) =~= put_record(
        accounts,
        key,
        second,
    ));
}

/// Writing back what was read changes nothing.
pub proof fn lemma_put_same(accounts: Accounts, key: Seq<u8>)
    requires
        store_wf(accounts),
    ensures
        put_record(accounts, key, record_at(accounts, key)) == accounts,
{
    assert(put_record(accounts, key, record_at(accounts, key)) =~= accounts);
}

/// Taking an amount that the balance covers keeps the store well formed and
/// lowers the sum of all balances by that amount.
pub proof fn lemma_debit(accounts: Accounts, key: Seq<u8>, amount: u128)
    requires
        store_wf(accounts),
        amount <= balance_at(accounts, key),
    ensures
        store_wf(debit(accounts, key, amount)),
        sum_balances(debit(accounts, key, amount)) == sum_balances(accounts) - amount,
        record_at(debit(accounts, key, amount), key) == record_at(accounts, key).with_balance(
            (balance_at(accounts, key) - amount) as u128,
        ),
        forall|k: Seq<u8>|
            k != key ==> #[trigger] record_at(debit(accounts, key, amount), k) == record_at(
                accounts,
                k,
            ),
{
    let record = record_at(accounts, key);
    let after = record.with_balance((record.balance - amount) as u128);
    lemma_put_wf(accounts, key, after);
    lemma_sum_put(accounts, key, after);
    lemma_put_get(accounts, key, after);
}

/// Adding an amount that the balance can take keeps the store well formed and
/// raises the sum of all balances by that amount.
pub proof fn lemma_credit(accounts: Accounts, key: Seq<u8>, amount: u128)
    requires
        store_wf(accounts),
        balance_at(accounts, key) + amount <= u128::MAX,
    ensures
        store_wf(credit(accounts, key, amount)),
        sum_balances(credit(accounts, key, amount)) == sum_balances(accounts) + amount,
        record_at(credit(accounts, key, amount), key) == record_at(accounts, key).with_balance(
            (balance_at(accounts, key) + amount) as u128,
        ),
        forall|k: Seq<u8>|
            k != key ==> #[trigger] record_at(credit(accounts, key, amount), k) == record_at(
                accounts,
                k,
            ),
{
    let record = record_at(accounts, key);
    let after = record.with_balance((record.balance + amount) as u128);
    lemma_put_wf(accounts, key, after);
    lemma_sum_put(accounts, key, after);
    lemma_put_get(accounts, key, after);
}

/// Setting a cap keeps the store well formed and the sum of all balances as
/// it was.
pub proof fn lemma_grant(accounts: Accounts, key: Seq<u8>, delegate: Seq<u8>, amount: u128)
    requires
        store_wf(accounts),
    ensures
        store_wf(grant(accounts, key, delegate, amount)),
        sum_balances(grant(accounts, key, delegate, amount)) == sum_balances(accounts),
        record_at(grant(accounts, key, delegate, amount), key) == record_at(
            accounts,
            key,
        ).with_allowance(delegate, amount),
        forall|k: Seq<u8>|
            k != key ==> #[trigger] record_at(grant(accounts, key, delegate, amount), k)
                == record_at(accounts, k),
{
    let after = record_at(accounts, key).with_allowance(delegate, amount);
    lemma_with_allowance_wf(record_at(accounts, key), delegate, amount);
    lemma_put_wf(accounts, key, after);
    lemma_sum_put(accounts, key, after);
    lemma_put_get(accounts, key, after);
}

} // verus!
