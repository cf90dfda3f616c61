//! The rules of the ledger: for each operation, on which inputs it is refused
//! and with which error, and what it changes where it is not.
//!
//! Every operation first checks and then writes. A refused operation leaves
//! the ledger as it was.

use vstd::prelude::*;
use crate::error::LedgerError;
use crate::model::{
    allowance_at,
    balance_at,
    credit,
    debit,
    grant,
    store_wf,
    sum_balances,
    Accounts,
    Party,
};

verus! {

/// The state of a ledger.
pub struct LedgerView {
    /// The name of the principal that may mint and burn.
    pub owner: Seq<u8>,
    /// The ledger's own account, which minted units enter and burned units
    /// leave.
    pub custodian: Party,
    /// The number of units in existence.
    pub total_supply: u128,
    /// The records of the accounts that hold something.
    pub accounts: Accounts,
}

/// An operation's result together with the state it leaves.
pub struct Outcome {
    pub state: LedgerView,
    pub result: Result<(), LedgerError>,
}

/// One call of an operation that changes the ledger.
pub enum Operation {
    Mint { caller: Seq<u8>, amount: u128 },
    Burn { caller: Seq<u8>, amount: u128 },
    Transfer { from: Party, to: Party, amount: u128 },
    TransferFrom { spender: Seq<u8>, from: Party, to: Party, amount: u128 },
    SetAllowance { caller: Seq<u8>, holder: Party, delegate: Seq<u8>, amount: u128 },
    IncAllowance { caller: Seq<u8>, holder: Party, delegate: Seq<u8>, amount: u128 },
    DecAllowance { caller: Seq<u8>, holder: Party, delegate: Seq<u8>, amount: u128 },
}

impl LedgerView {
    /// The state of a new ledger: no units and no records.
    pub open spec fn new(owner: Seq<u8>, custodian: Party) -> LedgerView {
        LedgerView { owner, custodian, total_supply: 0, accounts: Map::empty() }
    }

    /// The store is well formed, and the supply is the sum of all balances.
    pub open spec fn wf(self) -> bool {
        store_wf(self.accounts) && self.total_supply == sum_balances(self.accounts)
    }

    /// The balance of the account named `id`. A name that breaks the host's
    /// rule names no account and reads as zero.
    pub open spec fn balance_of(self, id: Party) -> u128 {
        if id.valid() {
            balance_at(self.accounts, id.key)
        } else {
            0
        }
    }

    /// What `delegate` may still move out of the account named `holder`. A
    /// holder's name that breaks the host's rule reads as zero.
    pub open spec fn allowance_of(self, holder: Party, delegate: Seq<u8>) -> u128 {
        if holder.valid() {
            allowance_at(self.accounts, holder.key, delegate)
        } else {
            0
        }
    }

    /// The state with other records.
    pub open spec fn with_accounts(self, accounts: Accounts) -> LedgerView {
        LedgerView { accounts, ..self }
    }

    /// What the operation returns and leaves: the state after its effect where
    /// the check passes, the state unchanged where it does not.
    pub open spec fn conclude(self, result: Result<(), LedgerError>, after: LedgerView) -> Outcome {
        Outcome {
            state: if result is Ok {
                after
            } else {
                self
            },
            result,
        }
    }

    /// Whether `mint` is refused: for a caller other than the owner, then for
    /// a custodial name that breaks the host's rule, then for a supply that
    /// would leave the range.
    pub open spec fn mint_check(self, caller: Seq<u8>, amount: u128) -> Result<(), LedgerError> {
        if caller != self.owner {
            Err(LedgerError::Unauthorized)
        } else if !self.custodian.valid() {
            Err(LedgerError::InvalidIdentifier)
        } else if self.total_supply + amount > u128::MAX {
            Err(LedgerError::ArithmeticFault)
        } else {
            Ok(())
        }
    }

    /// What `mint` changes: the custodial balance and the supply grow by
    /// `amount`.
    pub open spec fn mint_effect(self, amount: u128) -> LedgerView {
        LedgerView {
            total_supply: (self.total_supply + amount) as u128,
            accounts: credit(self.accounts, self.custodian.key, amount),
            ..self
        }
    }

    /// `mint` as a whole.
    pub open spec fn mint(self, caller: Seq<u8>, amount: u128) -> Outcome {
        self.conclude(self.mint_check(caller, amount), self.mint_effect(amount))
    }

    /// Whether `burn` is refused: for a caller other than the owner, then for
    /// a custodial name that breaks the host's rule, then for a custodial
    /// balance below `amount`.
    pub open spec fn burn_check(self, caller: Seq<u8>, amount: u128) -> Result<(), LedgerError> {
        if caller != self.owner {
            Err(LedgerError::Unauthorized)
        } else if !self.custodian.valid() {
            Err(LedgerError::InvalidIdentifier)
        } else if balance_at(self.accounts, self.custodian.key) < amount {
            Err(LedgerError::InsufficientBalance)
        } else {
            Ok(())
        }
    }

    /// What `burn` changes: the custodial balance and the supply shrink by
    /// `amount`.
    pub open spec fn burn_effect(self, amount: u128) -> LedgerView {
        LedgerView {
            total_supply: (self.total_supply - amount) as u128,
            accounts: debit(self.accounts, self.custodian.key, amount),
            ..self
        }
    }

    /// `burn` as a whole.
    pub open spec fn burn(self, caller: Seq<u8>, amount: u128) -> Outcome {
        self.conclude(self.burn_check(caller, amount), self.burn_effect(amount))
    }

    /// Whether `transfer` is refused: for a sender's name that breaks the
    /// host's rule, then for a sender's balance below `amount`, then for a
    /// receiver's name that breaks the rule.
    pub open spec fn transfer_check(self, from: Party, to: Party, amount: u128) -> Result<
        (),
        LedgerError,
    > {
        if !from.valid() {
            Err(LedgerError::InvalidIdentifier)
        } else if balance_at(self.accounts, from.key) < amount {
            Err(LedgerError::InsufficientBalance)
        } else if !to.valid() {
            Err(LedgerError::InvalidIdentifier)
        } else {
            Ok(())
        }
    }

    /// What `transfer` changes: `amount` leaves the sender's balance and
    /// enters the receiver's.
    pub open spec fn transfer_effect(self, from: Party, to: Party, amount: u128) -> LedgerView {
        self.with_accounts(
            credit(debit(self.accounts, from.key, amount), to.key, amount),
        )
    }

    /// `transfer` as a whole.
    pub open spec fn transfer(self, from: Party, to: Party, amount: u128) -> Outcome {
        self.conclude(self.transfer_check(from, to, amount), self.transfer_effect(from, to, amount))
    }

    /// Whether `transfer_from` is refused: for a holder's name that breaks the
    /// host's rule, then for a cap of the spender below `amount`, then for a
    /// holder's balance below `amount`, then for a receiver's name that breaks
    /// the rule.
    pub open spec fn transfer_from_check(
        self,
        spender: Seq<u8>,
        from: Party,
        to: Party,
        amount: u128,
    ) -> Result<(), LedgerError> {
        if !from.valid() {
            Err(LedgerError::InvalidIdentifier)
        } else if allowance_at(self.accounts, from.key, spender) < amount {
            Err(LedgerError::InsufficientAllowance)
        } else if balance_at(self.accounts, from.key) < amount {
            Err(LedgerError::InsufficientBalance)
        } else if !to.valid() {
            Err(LedgerError::InvalidIdentifier)
        } else {
            Ok(())
        }
    }

    /// What `transfer_from` changes: the spender's cap on the holder's account
    /// shrinks by `amount`, and `amount` moves as in `transfer`.
    pub open spec fn transfer_from_effect(
        self,
        spender: Seq<u8>,
        from: Party,
        to: Party,
        amount: u128,
    ) -> LedgerView {
        let left = allowance_at(self.accounts, from.key, spender) - amount;
        self.with_accounts(
            grant(self.accounts, from.key, spender, left as u128),
        ).transfer_effect(from, to, amount)
    }

    /// `transfer_from` as a whole.
    pub open spec fn transfer_from(
        self,
        spender: Seq<u8>,
        from: Party,
        to: Party,
        amount: u128,
    ) -> Outcome {
        self.conclude(
            self.transfer_from_check(spender, from, to, amount),
            self.transfer_from_effect(spender, from, to, amount),
        )
    }

    /// Whether a change of a cap is refused before the amounts are looked at:
    /// for a caller other than the holder, then for a holder's name that
    /// breaks the host's rule.
    pub open spec fn holder_check(self, caller: Seq<u8>, holder: Party) -> Result<
        (),
        LedgerError,
    > {
        if caller != holder.name {
            Err(LedgerError::Unauthorized)
        } else if !holder.valid() {
            Err(LedgerError::InvalidIdentifier)
        } else {
            Ok(())
        }
    }

    /// The state with the cap of `delegate` on the account of `holder` set to
    /// `amount`.
    pub open spec fn allowance_effect(self, holder: Party, delegate: Seq<u8>, amount: u128) -> LedgerView {
        self.with_accounts(grant(self.accounts, holder.key, delegate, amount))
    }

    /// `set_allowance` as a whole: the cap becomes `amount`.
    pub open spec fn set_allowance(
        self,
        caller: Seq<u8>,
        holder: Party,
        delegate: Seq<u8>,
        amount: u128,
    ) -> Outcome {
        self.conclude(
            self.holder_check(caller, holder),
            self.allowance_effect(holder, delegate, amount),
        )
    }

    /// Whether `inc_allowance` is refused: as any change of a cap, then for a
    /// cap that would leave the range.
    pub open spec fn inc_allowance_check(
        self,
        caller: Seq<u8>,
        holder: Party,
        delegate: Seq<u8>,
        amount: u128,
    ) -> Result<(), LedgerError> {
        if self.holder_check(caller, holder) is Err {
            self.holder_check(caller, holder)
        } else if self.allowance_of(holder, delegate) + amount > u128::MAX {
            Err(LedgerError::AllowanceOverflow)
        } else {
            Ok(())
        }
    }

    /// `inc_allowance` as a whole: the cap grows by `amount`.
    pub open spec fn inc_allowance(
        self,
        caller: Seq<u8>,
        holder: Party,
        delegate: Seq<u8>,
        amount: u128,
    ) -> Outcome {
        self.conclude(
            self.inc_allowance_check(caller, holder, delegate, amount),
            self.allowance_effect(
                holder,
                delegate,
                (self.allowance_of(holder, delegate) + amount) as u128,
            ),
        )
    }

    /// Whether `dec_allowance` is refused: as any change of a cap, then for a
    /// cap below `amount`.
    pub open spec fn dec_allowance_check(
        self,
        caller: Seq<u8>,
        holder: Party,
        delegate: Seq<u8>,
        amount: u128,
    ) -> Result<(), LedgerError> {
        if self.holder_check(caller, holder) is Err {
            self.holder_check(caller, holder)
        } else if self.allowance_of(holder, delegate) < amount {
            Err(LedgerError::ArithmeticFault)
        } else {
            Ok(())
        }
    }

    /// `dec_allowance` as a whole: the cap shrinks by `amount`.
    pub open spec fn dec_allowance(
        self,
        caller: Seq<u8>,
        holder: Party,
        delegate: Seq<u8>,
        amount: u128,
    ) -> Outcome {
        self.conclude(
            self.dec_allowance_check(caller, holder, delegate, amount),
            self.allowance_effect(
                holder,
                delegate,
                (self.allowance_of(holder, delegate) - amount) as u128,
            ),
        )
    }

    /// The state after one operation, refused or not.
    pub open spec fn step(self, op: Operation) -> LedgerView {
        match op {
            Operation::Mint { caller, amount } => self.mint(caller, amount).state,
            Operation::Burn { caller, amount } => self.burn(caller, amount).state,
            Operation::Transfer { from, to, amount } => self.transfer(from, to, amount).state,
            Operation::TransferFrom { spender, from, to, amount } => self.transfer_from(
                spender,
                from,
                to,
                amount,
            ).state,
            Operation::SetAllowance { caller, holder, delegate, amount } => self.set_allowance(
                caller,
                holder,
                delegate,
                amount,
            ).state,
            Operation::IncAllowance { caller, holder, delegate, amount } => self.inc_allowance(
                caller,
                holder,
                delegate,
                amount,
            ).state,
            Operation::DecAllowance { caller, holder, delegate, amount } => self.dec_allowance(
                caller,
                holder,
                delegate,
                amount,
            ).state,
        }
    }

    /// The state after a sequence of operations, the first of them first.
    pub open spec fn run(self, ops: Seq<Operation>) -> LedgerView
        decreases ops.len(),
    {
        if ops.len() == 0 {
            self
        } else {
            self.run(ops.drop_last()).step(ops.last())
        }
    }
}

} // verus!
