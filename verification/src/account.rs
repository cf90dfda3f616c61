//! The record of one account: its balance and the caps it has granted.

use vstd::prelude::*;
use crate::digest_map::DigestMap;
use crate::host::Key;
use crate::model::{lemma_with_allowance_wf, AccountView};

verus! {

/// Balance and allowances of one account.
pub struct Account {
    /// Current balance, in the smallest unit.
    pub balance: u128,
    /// For each delegate, by the key of its name, the amount that it may still
    /// move out of this account.
    pub allowances: DigestMap<u128>,
}

impl View for Account {
    type V = AccountView;

    open spec fn view(&self) -> AccountView {
        AccountView { balance: self.balance, allowances: self.allowances@ }
    }
}

impl Account {
    /// The caps are held without a repeated key, and none of them is zero.
    pub open spec fn wf(&self) -> bool {
        self.allowances.wf() && self@.wf()
    }

    /// An account with no balance and no allowances.
    pub fn new() -> (account: Self)
        ensures
            account.wf(),
            account@ == AccountView::empty(),
    {
        Account { balance: 0, allowances: DigestMap::new() }
    }

    /// Sets what the delegate with the key `escrow_key` may move out of this
    /// account to `allowance`, whatever it was before. A cap of zero removes
    /// the entry.
    pub fn set_allowance(&mut self, escrow_key: &Key, allowance: u128)
        requires
            old(self).wf(),
        ensures
            final(self).wf(),
            final(self)@ == old(self)@.with_allowance(escrow_key@, allowance),
    {
        proof {
            lemma_with_allowance_wf(self@, escrow_key@, allowance);
        }
        if allowance > 0 {
            self.allowances.insert(*escrow_key, allowance);
        } else {
            self.allowances.remove(escrow_key);
        }
    }

    /// What the delegate with the key `escrow_key` may still move out of this
    /// account.
    pub fn get_allowance(&self, escrow_key: &Key) -> (allowance: u128)
        requires
            self.wf(),
        ensures
            allowance == self@.allowance(escrow_key@),
    {
        match self.allowances.get(escrow_key) {
            Some(allowance) => *allowance,
            None => 0,
        }
    }

    /// Whether the account holds nothing: no balance and no allowance.
    pub fn is_empty(&self) -> (empty: bool)
        requires
            self.wf(),
        ensures
            empty == self@.is_empty(),
    {
        self.balance == 0 && self.allowances.is_empty()
    }
}

impl Clone for Account {
    /// A copy that holds the same.
    fn clone(&self) -> (copy: Self)
        ensures
            self.wf() ==> copy.wf() && copy@ == self@,
    {
        Account { balance: self.balance, allowances: self.allowances.clone() }
    }
}

} // verus!
