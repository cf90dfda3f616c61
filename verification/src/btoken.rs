//! The ledger: the supply of one asset, the accounts that hold it, and the
//! operations that mint, burn, move and delegate it.
//!
//! Who calls is an argument of the operation: the host knows the caller, and
//! whoever drives the ledger hands the caller's name in.

use vstd::prelude::*;
use vstd::string::StringSliceAdditionalSpecFns;
use vstd::utf8::encode_utf8;
use crate::account::Account;
use crate::bytes::bytes_eq;
use crate::error::LedgerError;
use crate::host::Key;
use crate::laws::{law_allowance_conserves, law_burn_conserves, law_mint_conserves};
use crate::model::{
    balance_at,
    credit,
    debit,
    lemma_balance_le_sum,
    lemma_credit,
    lemma_debit,
    lemma_put_get,
    lemma_put_put,
    lemma_put_same,
    put_record,
    record_at,
    sum_balances,
};
use crate::principal::Principal;
use crate::rules::LedgerView;
use crate::store::AccountStore;

verus! {

/// Marks a type that keeps the balances of one fungible asset.
pub trait FungibleToken {

}

/// A ledger of one fungible asset.
pub struct BToken {
    owner: String,
    custodian: Principal,
    total_supply: u128,
    accounts: AccountStore,
}

impl View for BToken {
    type V = LedgerView;

    /// The state of the ledger, with names as bytes.
    closed spec fn view(&self) -> LedgerView {
        LedgerView {
            owner: encode_utf8(self.owner@),
            custodian: self.custodian@,
            total_supply: self.total_supply,
            accounts: self.accounts@,
        }
    }
}

impl FungibleToken for BToken {

}

impl BToken {
    /// The store is held as it should be.
    pub closed spec fn inv(&self) -> bool {
        self.accounts.wf()
    }

    /// The ledger is held as it should be, and its state is well formed: the
    /// supply is the sum of all balances.
    pub open spec fn wf(&self) -> bool {
        self.inv() && self@.wf()
    }

    /// A ledger without units. `owner` names the principal that may mint and
    /// burn, `custodian` is the ledger's own account.
    pub fn new(owner: &str, custodian: Principal) -> (ledger: Self)
        ensures
            ledger.wf(),
            ledger@ == LedgerView::new(owner.spec_bytes(), custodian@),
    {
        BToken {
            owner: owner.to_owned(),
            custodian,
            total_supply: 0,
            accounts: AccountStore::new(),
        }
    }

    /// The ledger that holds `accounts` and `total_supply` units, as it is
    /// rebuilt from what was persisted. Gives `None` exactly when the supply
    /// is not the sum of all balances.
    pub fn restore(owner: &str, custodian: Principal, total_supply: u128, accounts: AccountStore) -> (r:
        Option<Self>)
        requires
            accounts.wf(),
        ensures
            match r {
                Some(ledger) => {
                    &&& total_supply == sum_balances(accounts@)
                    &&& ledger.wf()
                    &&& ledger@ == (LedgerView {
                        owner: owner.spec_bytes(),
                        custodian: custodian@,
                        total_supply,
                        accounts: accounts@,
                    })
                },
                None => total_supply != sum_balances(accounts@),
            },
    {
        match accounts.sum_of_balances() {
            Some(sum) => {
                if sum != total_supply {
                    return None;
                }
            },
            None => {
                return None;
            },
        }
        Some(
            BToken {
                owner: owner.to_owned(),
                custodian,
                total_supply,
                accounts,
            },
        )
    }

    /// The name of the principal that may mint and burn.
    pub fn owner(&self) -> (owner: &str)
        ensures
            owner.spec_bytes() == self@.owner,
    {
        self.owner.as_str()
    }

    /// The ledger's own account.
    pub fn custodian(&self) -> (custodian: &Principal)
        ensures
            custodian@ == self@.custodian,
    {
        &self.custodian
    }

    /// Creates `amount` units in the custodial account.
    ///
    /// Fails with `Unauthorized` unless `caller` is the owner, then with
    /// `InvalidIdentifier` for a custodial name that breaks the host's rule,
    /// then with `ArithmeticFault` where the supply would leave the range.
    pub fn mint(&mut self, caller: &str, amount: u128) -> (r: Result<(), LedgerError>)
        requires
            old(self).wf(),
        ensures
            final(self).wf(),
            r == old(self)@.mint(caller.spec_bytes(), amount).result,
            final(self)@ == old(self)@.mint(caller.spec_bytes(), amount).state,
    {
        if !bytes_eq(caller.as_bytes(), self.owner.as_str().as_bytes()) {
            return Err(LedgerError::Unauthorized);
        }
        if !self.custodian.is_valid() {
            return Err(LedgerError::InvalidIdentifier);
        }
        let key = self.custodian.key;
        let supply = match self.total_supply.checked_add(amount) {
            Some(supply) => supply,
            None => {
                return Err(LedgerError::ArithmeticFault);
            },
        };
        proof {
            lemma_balance_le_sum(self.accounts@, key@);
            law_mint_conserves(self@, caller.spec_bytes(), amount);
        }
        let mut account = self.accounts.get_by_key(&key);
        account.balance = account.balance + amount;
        self.total_supply = supply;
        self.accounts.put_by_key(key, account);
        Ok(())
    }

    /// Destroys `amount` units of the custodial account.
    ///
    /// Fails with `Unauthorized` unless `caller` is the owner, then with
    /// `InvalidIdentifier` for a custodial name that breaks the host's rule,
    /// then with `InsufficientBalance` where the custodial account holds less
    /// than `amount`.
    pub fn burn(&mut self, caller: &str, amount: u128) -> (r: Result<(), LedgerError>)
        requires
            old(self).wf(),
        ensures
            final(self).wf(),
            r == old(self)@.burn(caller.spec_bytes(), amount).result,
            final(self)@ == old(self)@.burn(caller.spec_bytes(), amount).state,
    {
        if !bytes_eq(caller.as_bytes(), self.owner.as_str().as_bytes()) {
            return Err(LedgerError::Unauthorized);
        }
        if !self.custodian.is_valid() {
            return Err(LedgerError::InvalidIdentifier);
        }
        let key = self.custodian.key;
        let mut account = self.accounts.get_by_key(&key);
        if account.balance < amount {
            return Err(LedgerError::InsufficientBalance);
        }
        proof {
            lemma_balance_le_sum(self.accounts@, key@);
            law_burn_conserves(self@, caller.spec_bytes(), amount);
        }
        account.balance = account.balance - amount;
        self.total_supply = self.total_supply - amount;
        self.accounts.put_by_key(key, account);
        Ok(())
    }

    /// Writes `from_account` as the sender's record and moves `amount` from it
    /// to the receiver. A sender that is its own receiver is written once,
    /// with both changes made to the one record.
    fn settle(
        &mut self,
        from_key: Key,
        from_account: Account,
        to_key: Key,
        amount: u128,
    )
        requires
            old(self).wf(),
            from_account.wf(),
            from_account.balance == balance_at(old(self)@.accounts, from_key@),
            amount <= from_account.balance,
            old(self)@.with_accounts(
                put_record(old(self)@.accounts, from_key@, from_account@),
            ).wf(),
        ensures
            final(self).wf(),
            final(self)@ == old(self)@.with_accounts(
                credit(
                    debit(
                        put_record(old(self)@.accounts, from_key@, from_account@),
                        from_key@,
                        amount,
                    ),
                    to_key@,
                    amount,
                ),
            ),
    {
        let ghost before = self@;
        let ghost kf = from_key@;
        let ghost kt = to_key@;
        let ghost written = put_record(before.accounts, kf, from_account@);
        let ghost lowered = from_account@.with_balance((from_account.balance - amount) as u128);
        let ghost taken = debit(written, kf, amount);
        proof {
            lemma_put_get(before.accounts, kf, from_account@);
            lemma_put_put(before.accounts, kf, from_account@, lowered);
            lemma_put_get(before.accounts, kf, lowered);
            lemma_debit(written, kf, amount);
            lemma_balance_le_sum(taken, kt);
            lemma_credit(taken, kt, amount);
            assert(taken == put_record(before.accounts, kf, lowered));
        }
        let mut from_account = from_account;
        if bytes_eq(from_key.as_slice(), to_key.as_slice()) {
            from_account.balance = from_account.balance - amount;
            from_account.balance = from_account.balance + amount;
            proof {
                lemma_put_put(before.accounts, kf, lowered, from_account@);
            }
            self.accounts.put_by_key(from_key, from_account);
        } else {
            let mut to_account = self.accounts.get_by_key(&to_key);
            assert(to_account@ == record_at(taken, kt));
            from_account.balance = from_account.balance - amount;
            to_account.balance = to_account.balance + amount;
            self.accounts.put_by_key(from_key, from_account);
            self.accounts.put_by_key(to_key, to_account);
        }
    }

    /// Moves `amount` from the account `from` to the account `to`. A transfer
    /// to oneself and a transfer of zero change nothing.
    ///
    /// Fails with `InvalidIdentifier` for a sender's name that breaks the
    /// host's rule, then with `InsufficientBalance` where the sender holds
    /// less than `amount`, then with `InvalidIdentifier` for a receiver's
    /// name that breaks the rule.
    pub fn transfer(&mut self, from: &Principal, to: &Principal, amount: u128) -> (r: Result<
        (),
        LedgerError,
    >)
        requires
            old(self).wf(),
        ensures
            final(self).wf(),
            r == old(self)@.transfer(from@, to@, amount).result,
            final(self)@ == old(self)@.transfer(from@, to@, amount).state,
    {
        if !from.is_valid() {
            return Err(LedgerError::InvalidIdentifier);
        }
        let from_account = self.accounts.get_by_key(&from.key);
        if from_account.balance < amount {
            return Err(LedgerError::InsufficientBalance);
        }
        if !to.is_valid() {
            return Err(LedgerError::InvalidIdentifier);
        }
        proof {
            lemma_put_same(self@.accounts, from@.key);
        }
        self.settle(from.key, from_account, to.key, amount);
        Ok(())
    }

    /// Moves `amount` from the account `from` to the account `to` on behalf of
    /// the delegate with the key `spender`, and lowers by `amount` what that
    /// delegate may still move out of the account.
    ///
    /// Fails with `InvalidIdentifier` for a holder's name that breaks the
    /// host's rule, then with `InsufficientAllowance` where the holder has
    /// granted the delegate less than `amount`, then with
    /// `InsufficientBalance` where the holder has less than `amount`, then
    /// with `InvalidIdentifier` for a receiver's name that breaks the rule.
    pub fn transfer_from(&mut self, spender: &Key, from: &Principal, to: &Principal, amount: u128) -> (r:
        Result<(), LedgerError>)
        requires
            old(self).wf(),
        ensures
            final(self).wf(),
            r == old(self)@.transfer_from(spender@, from@, to@, amount).result,
            final(self)@ == old(self)@.transfer_from(spender@, from@, to@, amount).state,
    {
        if !from.is_valid() {
            return Err(LedgerError::InvalidIdentifier);
        }
        let mut from_account = self.accounts.get_by_key(&from.key);
        let allowance = from_account.get_allowance(spender);
        if allowance < amount {
            return Err(LedgerError::InsufficientAllowance);
        }
        if from_account.balance < amount {
            return Err(LedgerError::InsufficientBalance);
        }
        if !to.is_valid() {
            return Err(LedgerError::InvalidIdentifier);
        }
        from_account.set_allowance(spender, allowance - amount);
        proof {
            law_allowance_conserves(self@, from@, spender@, (allowance - amount) as u128);
        }
        self.settle(from.key, from_account, to.key, amount);
        Ok(())
    }

    /// Moves `amount` from the custodial account to the account `to`. Fails as
    /// `transfer` does.
    pub fn push(&mut self, to: &Principal, amount: u128) -> (r: Result<(), LedgerError>)
        requires
            old(self).wf(),
        ensures
            final(self).wf(),
            r == old(self)@.transfer(old(self)@.custodian, to@, amount).result,
            final(self)@ == old(self)@.transfer(old(self)@.custodian, to@, amount).state,
    {
        let custodian = self.custodian.clone();
        self.transfer(&custodian, to, amount)
    }

    /// Moves `amount` from the account `from` to the custodial account. Fails
    /// as `transfer` does.
    pub fn pull(&mut self, from: &Principal, amount: u128) -> (r: Result<(), LedgerError>)
        requires
            old(self).wf(),
        ensures
            final(self).wf(),
            r == old(self)@.transfer(from@, old(self)@.custodian, amount).result,
            final(self)@ == old(self)@.transfer(from@, old(self)@.custodian, amount).state,
    {
        let custodian = self.custodian.clone();
        self.transfer(from, &custodian, amount)
    }

    /// Reads the record of `holder` for a change of one of its caps, which
    /// only the holder may ask for.
    fn holder_record(&self, caller: &str, holder: &Principal) -> (r: Result<Account, LedgerError>)
        requires
            self.wf(),
        ensures
            match r {
                Ok(account) => {
                    &&& self@.holder_check(caller.spec_bytes(), holder@) is Ok
                    &&& account.wf()
                    &&& account@ == record_at(self@.accounts, holder@.key)
                },
                Err(e) => self@.holder_check(caller.spec_bytes(), holder@) == Err::<
                    (),
                    LedgerError,
                >(e),
            },
    {
        if !bytes_eq(caller.as_bytes(), holder.id.as_str().as_bytes()) {
            return Err(LedgerError::Unauthorized);
        }
        if !holder.is_valid() {
            return Err(LedgerError::InvalidIdentifier);
        }
        Ok(self.accounts.get_by_key(&holder.key))
    }

    /// Sets what the delegate with the key `delegate` may move out of the
    /// account `holder` to `amount`, whatever it was before.
    ///
    /// Fails with `Unauthorized` unless `caller` is the holder's name, then
    /// with `InvalidIdentifier` for a holder's name that breaks the host's
    /// rule.
    pub fn set_allowance(&mut self, caller: &str, holder: &Principal, delegate: &Key, amount: u128) -> (r:
        Result<(), LedgerError>)
        requires
            old(self).wf(),
        ensures
            final(self).wf(),
            r == old(self)@.set_allowance(caller.spec_bytes(), holder@, delegate@, amount).result,
            final(self)@ == old(self)@.set_allowance(
                caller.spec_bytes(),
                holder@,
                delegate@,
                amount,
            ).state,
    {
        let mut account = match self.holder_record(caller, holder) {
            Ok(found) => found,
            Err(e) => {
                return Err(e);
            },
        };
        proof {
            law_allowance_conserves(self@, holder@, delegate@, amount);
        }
        account.set_allowance(delegate, amount);
        self.accounts.put_by_key(holder.key, account);
        Ok(())
    }

    /// Raises what the delegate with the key `delegate` may move out of the
    /// account `holder` by `amount`.
    ///
    /// Fails as `set_allowance` does, then with `AllowanceOverflow` where the
    /// cap would leave the range.
    pub fn inc_allowance(&mut self, caller: &str, holder: &Principal, delegate: &Key, amount: u128) -> (r:
        Result<(), LedgerError>)
        requires
            old(self).wf(),
        ensures
            final(self).wf(),
            r == old(self)@.inc_allowance(caller.spec_bytes(), holder@, delegate@, amount).result,
            final(self)@ == old(self)@.inc_allowance(
                caller.spec_bytes(),
                holder@,
                delegate@,
                amount,
            ).state,
    {
        let mut account = match self.holder_record(caller, holder) {
            Ok(found) => found,
            Err(e) => {
                return Err(e);
            },
        };
        let raised = match account.get_allowance(delegate).checked_add(amount) {
            Some(raised) => raised,
            None => {
                return Err(LedgerError::AllowanceOverflow);
            },
        };
        proof {
            law_allowance_conserves(self@, holder@, delegate@, raised);
        }
        account.set_allowance(delegate, raised);
        self.accounts.put_by_key(holder.key, account);
        Ok(())
    }

    /// Lowers what the delegate with the key `delegate` may move out of the
    /// account `holder` by `amount`.
    ///
    /// Fails as `set_allowance` does, then with `ArithmeticFault` where the
    /// cap is below `amount`.
    pub fn dec_allowance(&mut self, caller: &str, holder: &Principal, delegate: &Key, amount: u128) -> (r:
        Result<(), LedgerError>)
        requires
            old(self).wf(),
        ensures
            final(self).wf(),
            r == old(self)@.dec_allowance(caller.spec_bytes(), holder@, delegate@, amount).result,
            final(self)@ == old(self)@.dec_allowance(
                caller.spec_bytes(),
                holder@,
                delegate@,
                amount,
            ).state,
    {
        let mut account = match self.holder_record(caller, holder) {
            Ok(found) => found,
            Err(e) => {
                return Err(e);
            },
        };
        let lowered = match account.get_allowance(delegate).checked_sub(amount) {
            Some(lowered) => lowered,
            None => {
                return Err(LedgerError::ArithmeticFault);
            },
        };
        proof {
            law_allowance_conserves(self@, holder@, delegate@, lowered);
        }
        account.set_allowance(delegate, lowered);
        self.accounts.put_by_key(holder.key, account);
        Ok(())
    }

    /// The number of units in existence.
    pub fn total_supply(&self) -> (supply: u128)
        ensures
            supply == self@.total_supply,
    {
        self.total_supply
    }

    /// The balance of `account`. An account that holds nothing, and a name
    /// that breaks the host's rule, read as zero.
    pub fn balance(&self, account: &Principal) -> (balance: u128)
        requires
            self.wf(),
        ensures
            balance == self@.balance_of(account@),
    {
        match self.accounts.get(account) {
            Ok(record) => record.balance,
            Err(_) => 0,
        }
    }

    /// What the delegate with the key `delegate` may still move out of the
    /// account `holder`. A cap that was never set, and a holder's name that
    /// breaks the host's rule, read as zero.
    pub fn allowance_of(&self, holder: &Principal, delegate: &Key) -> (allowance: u128)
        requires
            self.wf(),
        ensures
            allowance == self@.allowance_of(holder@, delegate@),
    {
        match self.accounts.get(holder) {
            Ok(record) => record.get_allowance(delegate),
            Err(_) => 0,
        }
    }

    /// The stored records, to read.
    pub fn accounts(&self) -> (store: &AccountStore)
        requires
            self.wf(),
        ensures
            store.wf(),
            store@ == self@.accounts,
    {
        &self.accounts
    }
}

} // verus!
