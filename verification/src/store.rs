//! The store of account records. A record is kept under the digest of the
//! account's name, and only while the account holds something.

use vstd::prelude::*;
use crate::account::Account;
use crate::digest_map::DigestMap;
use crate::error::LedgerError;
use crate::host::{Key, KEY_LEN};
use crate::principal::Principal;
use crate::model::{
    lemma_put_wf,
    lemma_sum_remove,
    put_record,
    record_at,
    store_wf,
    sum_balances,
    Accounts,
};

verus! {

/// The records of all accounts that hold something.
pub struct AccountStore {
    records: DigestMap<Account>,
}

impl View for AccountStore {
    type V = Accounts;

    /// The stored records, by key.
    closed spec fn view(&self) -> Accounts {
        Map::new(
            |k: Seq<u8>| self.records@.contains_key(k),
            |k: Seq<u8>| self.records@[k]@,
        )
    }
}

impl AccountStore {
    /// The records are held without a repeated key, and each of them is held
    /// well formed.
    pub closed spec fn inv(&self) -> bool {
        &&& self.records.wf()
        &&& forall|k: Seq<u8>| #[trigger]
            self.records@.contains_key(k) ==> self.records@[k].wf()
    }

    /// The store is held as it should be, and it stands for a well-formed
    /// store: finitely many records, none of them empty.
    pub open spec fn wf(&self) -> bool {
        self.inv() && store_wf(self@)
    }

    /// A store without records.
    pub fn new() -> (store: Self)
        ensures
            store.wf(),
            store@ == Map::<Seq<u8>, crate::model::AccountView>::empty(),
    {
        let store = AccountStore { records: DigestMap::new() };
        assert(store@ =~= Map::<Seq<u8>, crate::model::AccountView>::empty());
        store
    }

    /// The record under `key`: the empty record where none is stored.
    pub fn get_by_key(&self, key: &Key) -> (account: Account)
        requires
            self.wf(),
        ensures
            account.wf(),
            account@ == record_at(self@, key@),
    {
        match self.records.get(key) {
            Some(account) => account.clone(),
            None => Account::new(),
        }
    }

    /// Writes `account` under `key`, or removes what is stored there if the
    /// account holds nothing.
    pub fn put_by_key(&mut self, key: Key, account: Account)
        requires
            old(self).wf(),
            account.wf(),
        ensures
            final(self).wf(),
            final(self)@ == put_record(old(self)@, key@, account@),
    {
        let ghost before = *self;
        proof {
            lemma_put_wf(before@, key@, account@);
        }
        if account.is_empty() {
            self.records.remove(&key);
        } else {
            self.records.insert(key, account);
        }
        assert(self@ =~= put_record(before@, key@, account@));
    }

    /// The record of `account`; an account that holds nothing reads as the
    /// empty record. Fails with `InvalidIdentifier` exactly when the name
    /// breaks the host's rule.
    pub fn get(&self, account: &Principal) -> (r: Result<Account, LedgerError>)
        requires
            self.wf(),
        ensures
            match r {
                Ok(record) => {
                    &&& account@.valid()
                    &&& record.wf()
                    &&& record@ == record_at(self@, account@.key)
                },
                Err(e) => !account@.valid() && e == LedgerError::InvalidIdentifier,
            },
    {
        if !account.is_valid() {
            return Err(LedgerError::InvalidIdentifier);
        }
        Ok(self.get_by_key(&account.key))
    }

    /// Writes `record` as the record of `account`, or removes the record if it
    /// holds nothing. Fails with `InvalidIdentifier` exactly when the name
    /// breaks the host's rule, and then changes nothing.
    pub fn put(&mut self, account: &Principal, record: Account) -> (r: Result<(), LedgerError>)
        requires
            old(self).wf(),
            record.wf(),
        ensures
            final(self).wf(),
            match r {
                Ok(_) => {
                    &&& account@.valid()
                    &&& final(self)@ == put_record(old(self)@, account@.key, record@)
                },
                Err(e) => {
                    &&& !account@.valid()
                    &&& e == LedgerError::InvalidIdentifier
                    &&& final(self)@ == old(self)@
                },
            },
    {
        if !account.is_valid() {
            return Err(LedgerError::InvalidIdentifier);
        }
        self.put_by_key(account.key, record);
        Ok(())
    }

    /// Every key under which a record is stored has the fixed size.
    pub proof fn lemma_key_size(&self)
        ensures
            forall|k: Seq<u8>| self@.contains_key(k) ==> k.len() == KEY_LEN,
    {
        self.records.lemma_finite();
    }

    /// Whether a record is stored under `key`.
    pub fn contains_key(&self, key: &Key) -> (stored: bool)
        requires
            self.wf(),
        ensures
            stored == self@.contains_key(key@),
    {
        self.records.contains_key(key)
    }

    /// The keys under which a record is stored, each of them once.
    pub fn keys(&self) -> (keys: Vec<Key>)
        requires
            self.wf(),
        ensures
            keys@.len() == self@.dom().len(),
            forall|i: int| 0 <= i < keys@.len() ==> self@.contains_key(#[trigger] keys@[i]@),
            forall|i: int, j: int|
                0 <= i < j < keys@.len() ==> (#[trigger] keys@[i])@ != (#[trigger] keys@[j])@,
            forall|k: Seq<u8>|
                self@.contains_key(k) ==> exists|i: int|
                    0 <= i < keys@.len() && (#[trigger] keys@[i])@ == k,
    {
        assert(self@.dom() =~= self.records@.dom());
        self.records.keys()
    }

    /// The sum of the balances of all stored records, or `None` where a `u128`
    /// cannot hold it.
    pub fn sum_of_balances(&self) -> (sum: Option<u128>)
        requires
            self.wf(),
        ensures
            match sum {
                Some(s) => s == sum_balances(self@),
                None => sum_balances(self@) > u128::MAX,
            },
    {
        let keys = self.keys();
        let mut total: u128 = 0;
        let mut i: usize = 0;
        let ghost mut rest = self@;
        while i < keys.len()
            invariant
                self.wf(),
                i <= keys@.len(),
                forall|j: int| 0 <= j < keys@.len() ==> self@.contains_key(#[trigger] keys@[j]@),
                forall|a: int, b: int|
                    0 <= a < b < keys@.len() ==> (#[trigger] keys@[a])@ != (#[trigger] keys@[b])@,
                forall|k: Seq<u8>|
                    self@.contains_key(k) ==> exists|j: int|
                        0 <= j < keys@.len() && (#[trigger] keys@[j])@ == k,
                rest.dom().finite(),
                forall|k: Seq<u8>|
                    rest.contains_key(k) <==> self@.contains_key(k) && forall|j: int|
                        0 <= j < i ==> (#[trigger] keys@[j])@ != k,
                forall|k: Seq<u8>| rest.contains_key(k) ==> rest[k] == self@[k],
                total + sum_balances(rest) == sum_balances(self@),
            decreases keys@.len() - i,
        {
            let account = self.get_by_key(&keys[i]);
            proof {
                let k = keys@[i as int]@;
                assert(rest.contains_key(k));
                lemma_sum_remove(rest, k);
                rest = rest.remove(k);
            }
            total = match total.checked_add(account.balance) {
                Some(t) => t,
                None => {
                    return None;
                },
            };
            i = i + 1;
        }
        proof {
            assert forall|k: Seq<u8>| !rest.contains_key(k) by {
                if self@.contains_key(k) {
                    let j = choose|j: int| 0 <= j < keys@.len() && (#[trigger] keys@[j])@ == k;
                    assert(keys@[j]@ == k);
                }
            }
            assert(rest.dom() =~= Set::<Seq<u8>>::empty());
        }
        Some(total)
    }

    /// The number of stored records.
    pub fn len(&self) -> (n: usize)
        requires
            self.wf(),
        ensures
            n == self@.dom().len(),
    {
        assert(self@.dom() =~= self.records@.dom());
        self.records.len()
    }
}

} // verus!
