//! What holds of the ledger whatever is done with it.

use vstd::prelude::*;
use crate::error::LedgerError;
use crate::model::{
    allowance_at,
    balance_at,
    debit,
    grant,
    lemma_balance_le_sum,
    lemma_credit,
    lemma_debit,
    lemma_grant,
    lemma_put_get,
    lemma_put_put,
    lemma_put_same,
    record_at,
    sum_balances,
    AccountView,
    Party,
};
use crate::rules::{LedgerView, Operation};

verus! {

/// A new ledger is well formed: it has no units and no records.
pub proof fn law_new_is_well_formed(owner: Seq<u8>, custodian: Party)
    ensures
        LedgerView::new(owner, custodian).wf(),
        LedgerView::new(owner, custodian).total_supply == 0,
{
}

/// `mint`, refused or not, leaves the supply equal to the sum of all balances.
pub proof fn law_mint_conserves(s: LedgerView, caller: Seq<u8>, amount: u128)
    requires
        s.wf(),
    ensures
        s.mint(caller, amount).state.wf(),
{
    if s.mint_check(caller, amount) is Ok {
        let key = s.custodian.key;
        lemma_balance_le_sum(s.accounts, key);
        lemma_credit(s.accounts, key, amount);
    }
}

/// `burn`, refused or not, leaves the supply equal to the sum of all balances.
pub proof fn law_burn_conserves(s: LedgerView, caller: Seq<u8>, amount: u128)
    requires
        s.wf(),
    ensures
        s.burn(caller, amount).state.wf(),
{
    if s.burn_check(caller, amount) is Ok {
        let key = s.custodian.key;
        lemma_balance_le_sum(s.accounts, key);
        lemma_debit(s.accounts, key, amount);
    }
}

/// Moving an amount that the sender's balance covers keeps a well-formed
/// state well formed, and the receiver's balance can take the amount.
pub proof fn lemma_move_conserves(s: LedgerView, from: Party, to: Party, amount: u128)
    requires
        s.wf(),
        amount <= balance_at(s.accounts, from.key),
    ensures
        s.transfer_effect(from, to, amount).wf(),
        s.transfer_effect(from, to, amount).total_supply == s.total_supply,
        balance_at(debit(s.accounts, from.key, amount), to.key) + amount
            <= u128::MAX,
{
    let taken = debit(s.accounts, from.key, amount);
    lemma_debit(s.accounts, from.key, amount);
    lemma_balance_le_sum(taken, to.key);
    lemma_credit(taken, to.key, amount);
}

/// `transfer`, refused or not, leaves the supply as it was and equal to the
/// sum of all balances.
pub proof fn law_transfer_conserves(s: LedgerView, from: Party, to: Party, amount: u128)
    requires
        s.wf(),
    ensures
        s.transfer(from, to, amount).state.wf(),
        s.transfer(from, to, amount).state.total_supply == s.total_supply,
{
    if s.transfer_check(from, to, amount) is Ok {
        lemma_move_conserves(s, from, to, amount);
    }
}

/// `transfer_from`, refused or not, leaves the supply as it was and equal to
/// the sum of all balances.
pub proof fn law_transfer_from_conserves(
    s: LedgerView,
    spender: Seq<u8>,
    from: Party,
    to: Party,
    amount: u128,
)
    requires
        s.wf(),
    ensures
        s.transfer_from(spender, from, to, amount).state.wf(),
        s.transfer_from(spender, from, to, amount).state.total_supply == s.total_supply,
{
    if s.transfer_from_check(spender, from, to, amount) is Ok {
        let left = (allowance_at(s.accounts, from.key, spender)
            - amount) as u128;
        lemma_grant(s.accounts, from.key, spender, left);
        let spent = s.with_accounts(
            grant(s.accounts, from.key, spender, left),
        );
        lemma_move_conserves(spent, from, to, amount);
    }
}

/// A change of a cap, refused or not, leaves every balance and the supply as
/// they were.
pub proof fn law_allowance_conserves(s: LedgerView, holder: Party, delegate: Seq<u8>, amount: u128)
    requires
        s.wf(),
    ensures
        s.allowance_effect(holder, delegate, amount).wf(),
        s.allowance_effect(holder, delegate, amount).total_supply == s.total_supply,
        forall|k: Seq<u8>| #[trigger]
            balance_at(s.allowance_effect(holder, delegate, amount).accounts, k) == balance_at(
                s.accounts,
                k,
            ),
{
    lemma_grant(s.accounts, holder.key, delegate, amount);
    let after = s.allowance_effect(holder, delegate, amount).accounts;
    assert forall|k: Seq<u8>| #[trigger] balance_at(after, k) == balance_at(s.accounts, k) by {
        if k != holder.key {
            assert(record_at(after, k) == record_at(s.accounts, k));
        }
    }
}

/// One operation, whichever it is and whether it is refused or not, leaves
/// the supply equal to the sum of all balances.
pub proof fn law_step_conserves(s: LedgerView, op: Operation)
    requires
        s.wf(),
    ensures
        s.step(op).wf(),
{
    match op {
        Operation::Mint { caller, amount } => law_mint_conserves(s, caller, amount),
        Operation::Burn { caller, amount } => law_burn_conserves(s, caller, amount),
        Operation::Transfer { from, to, amount } => law_transfer_conserves(s, from, to, amount),
        Operation::TransferFrom { spender, from, to, amount } => law_transfer_from_conserves(
            s,
            spender,
            from,
            to,
            amount,
        ),
        Operation::SetAllowance { caller, holder, delegate, amount } => {
            law_allowance_conserves(s, holder, delegate, amount);
        },
        Operation::IncAllowance { caller, holder, delegate, amount } => {
            law_allowance_conserves(
                s,
                holder,
                delegate,
                (s.allowance_of(holder, delegate) + amount) as u128,
            );
        },
        Operation::DecAllowance { caller, holder, delegate, amount } => {
            law_allowance_conserves(
                s,
                holder,
                delegate,
                (s.allowance_of(holder, delegate) - amount) as u128,
            );
        },
    }
}

/// Conservation: after any sequence of operations on a well-formed ledger,
/// the supply is the sum of the balances of all accounts.
pub proof fn law_conservation(s: LedgerView, ops: Seq<Operation>)
    requires
        s.wf(),
    ensures
        s.run(ops).wf(),
        s.run(ops).total_supply == sum_balances(s.run(ops).accounts),
    decreases ops.len(),
{
    if ops.len() > 0 {
        law_conservation(s, ops.drop_last());
        law_step_conserves(s.run(ops.drop_last()), ops.last());
    }
}

/// Only `mint` and `burn` change the supply: after any other operation it is
/// what it was.
pub proof fn law_supply_changes_only_by_mint_and_burn(s: LedgerView, op: Operation)
    requires
        s.wf(),
        !(op is Mint),
        !(op is Burn),
    ensures
        s.step(op).total_supply == s.total_supply,
{
    law_step_conserves(s, op);
}

/// No balance, no cap and no supply is ever below zero, and none is above
/// what the sum of all balances allows.
pub proof fn law_amounts_are_not_negative(s: LedgerView, id: Party, delegate: Seq<u8>)
    requires
        s.wf(),
    ensures
        0 <= s.balance_of(id) <= s.total_supply,
        0 <= s.allowance_of(id, delegate),
        0 <= s.total_supply,
{
    lemma_balance_le_sum(s.accounts, id.key);
}

/// Authorization: `mint` and `burn` called by anyone but the owner fail with
/// `Unauthorized` and change nothing.
pub proof fn law_only_owner_mints_and_burns(s: LedgerView, caller: Seq<u8>, amount: u128)
    requires
        caller != s.owner,
    ensures
        s.mint(caller, amount).result == Err::<(), LedgerError>(LedgerError::Unauthorized),
        s.mint(caller, amount).state == s,
        s.burn(caller, amount).result == Err::<(), LedgerError>(LedgerError::Unauthorized),
        s.burn(caller, amount).state == s,
{
}

/// A cap is changed by its holder only: for any other caller the three
/// operations on caps fail with `Unauthorized` and change nothing.
pub proof fn law_only_holder_sets_allowance(
    s: LedgerView,
    caller: Seq<u8>,
    holder: Party,
    delegate: Seq<u8>,
    amount: u128,
)
    requires
        caller != holder.name,
    ensures
        s.set_allowance(caller, holder, delegate, amount).result == Err::<(), LedgerError>(
            LedgerError::Unauthorized,
        ),
        s.set_allowance(caller, holder, delegate, amount).state == s,
        s.inc_allowance(caller, holder, delegate, amount).result == Err::<(), LedgerError>(
            LedgerError::Unauthorized,
        ),
        s.inc_allowance(caller, holder, delegate, amount).state == s,
        s.dec_allowance(caller, holder, delegate, amount).result == Err::<(), LedgerError>(
            LedgerError::Unauthorized,
        ),
        s.dec_allowance(caller, holder, delegate, amount).state == s,
{
}

/// Insufficient funds: a transfer of more than the sender holds fails with
/// `InsufficientBalance`, and every balance is as it was. The sender's name
/// must follow the host's rule, for a name that breaks it is refused as such.
pub proof fn law_transfer_rejects_overdraft(s: LedgerView, from: Party, to: Party, amount: u128)
    requires
        from.valid(),
        amount > s.balance_of(from),
    ensures
        s.transfer(from, to, amount).result == Err::<(), LedgerError>(
            LedgerError::InsufficientBalance,
        ),
        s.transfer(from, to, amount).state == s,
        s.transfer(from, to, amount).state.balance_of(from) == s.balance_of(from),
        s.transfer(from, to, amount).state.balance_of(to) == s.balance_of(to),
{
}

/// A transfer that is not refused moves exactly `amount`: between two
/// accounts with different keys the sender has that much less and the
/// receiver that much more, and every other balance and every cap is as it
/// was.
pub proof fn law_transfer_moves_amount(s: LedgerView, from: Party, to: Party, amount: u128)
    requires
        s.wf(),
        s.transfer_check(from, to, amount) is Ok,
        from.key != to.key,
    ensures
        s.transfer(from, to, amount).state.balance_of(from) == s.balance_of(from) - amount,
        s.transfer(from, to, amount).state.balance_of(to) == s.balance_of(to) + amount,
        forall|k: Seq<u8>|
            k != from.key && k != to.key ==> #[trigger] record_at(
                s.transfer(from, to, amount).state.accounts,
                k,
            ) == record_at(s.accounts, k),
        forall|k: Seq<u8>| #[trigger]
            record_at(s.transfer(from, to, amount).state.accounts, k).allowances == record_at(
                s.accounts,
                k,
            ).allowances,
{
    let taken = debit(s.accounts, from.key, amount);
    let after = s.transfer(from, to, amount).state.accounts;
    lemma_move_conserves(s, from, to, amount);
    lemma_debit(s.accounts, from.key, amount);
    lemma_credit(taken, to.key, amount);
    assert(record_at(taken, to.key) == record_at(s.accounts, to.key));
    assert(record_at(after, from.key) == record_at(taken, from.key));
    assert forall|k: Seq<u8>| k != from.key && k != to.key implies #[trigger] record_at(
        after,
        k,
    ) == record_at(s.accounts, k) by {
        assert(record_at(after, k) == record_at(taken, k));
    }
    assert forall|k: Seq<u8>| #[trigger]
        record_at(after, k).allowances == record_at(s.accounts, k).allowances by {
        if k == to.key {
        } else if k == from.key {
        } else {
            assert(record_at(after, k) == record_at(taken, k));
        }
    }
}

/// A transfer from an account to itself changes nothing, and so does a
/// transfer of zero; both still need the sender to cover the amount.
pub proof fn law_transfer_to_self_or_of_zero_is_noop(
    s: LedgerView,
    from: Party,
    to: Party,
    amount: u128,
)
    requires
        s.wf(),
        from.key == to.key || amount == 0,
    ensures
        s.transfer(from, to, amount).state == s,
        amount > s.balance_of(from) ==> s.transfer(from, to, amount).result is Err,
{
    if s.transfer_check(from, to, amount) is Ok {
        lemma_same_after_move(s, from, to, amount);
    }
}

/// Taking an amount from a balance and adding it under the same key, or
/// moving nothing at all, leaves the store as it was.
proof fn lemma_same_after_move(s: LedgerView, from: Party, to: Party, amount: u128)
    requires
        s.wf(),
        amount <= balance_at(s.accounts, from.key),
        from.key == to.key || amount == 0,
    ensures
        s.transfer_effect(from, to, amount) == s,
{
    let kf = from.key;
    let kt = to.key;
    let record = record_at(s.accounts, kf);
    let lowered = record.with_balance((record.balance - amount) as u128);
    let taken = debit(s.accounts, kf, amount);
    lemma_put_get(s.accounts, kf, lowered);
    if kf == kt {
        assert(lowered.with_balance((lowered.balance + amount) as u128) == record);
        lemma_put_put(s.accounts, kf, lowered, record);
        lemma_put_same(s.accounts, kf);
    } else {
        assert(lowered == record);
        lemma_put_same(s.accounts, kf);
        assert(taken == s.accounts);
        let other = record_at(s.accounts, kt);
        assert(other.with_balance((other.balance + amount) as u128) == other);
        lemma_put_same(s.accounts, kt);
    }
}

/// Allowance enforcement: once a holder has set a delegate's cap to `cap`,
/// the delegate cannot move more than `cap` (`InsufficientAllowance`); it can
/// move exactly `cap` if the holder's balance covers it and the receiver's
/// name follows the host's rule; and then the cap is used up, so that the
/// same call made again fails with `InsufficientAllowance`, unless `cap` is
/// zero.
pub proof fn law_allowance_is_enforced(
    s: LedgerView,
    holder: Party,
    delegate: Seq<u8>,
    to: Party,
    cap: u128,
    more: u128,
)
    requires
        s.wf(),
        holder.valid(),
        more > cap,
    ensures
        ({
            let granted = s.set_allowance(holder.name, holder, delegate, cap);
            let refused = granted.state.transfer_from(delegate, holder, to, more);
            let first = granted.state.transfer_from(delegate, holder, to, cap);
            let second = first.state.transfer_from(delegate, holder, to, cap);
            &&& granted.result is Ok
            &&& granted.state.allowance_of(holder, delegate) == cap
            &&& refused.result == Err::<(), LedgerError>(LedgerError::InsufficientAllowance)
            &&& refused.state == granted.state
            &&& (s.balance_of(holder) >= cap && to.valid() ==> {
                &&& first.result is Ok
                &&& first.state.allowance_of(holder, delegate) == 0
                &&& (cap > 0 ==> second.result == Err::<(), LedgerError>(
                    LedgerError::InsufficientAllowance,
                ))
                &&& (cap > 0 ==> second.state == first.state)
            })
        }),
{
    let kh = holder.key;
    let kd = delegate;
    let kt = to.key;
    let granted = s.set_allowance(holder.name, holder, delegate, cap).state;
    lemma_grant(s.accounts, kh, kd, cap);
    assert(granted.wf()) by {
        law_allowance_conserves(s, holder, delegate, cap);
    }
    assert(allowance_at(granted.accounts, kh, kd) == cap);
    assert(balance_at(granted.accounts, kh) == balance_at(s.accounts, kh));
    if s.balance_of(holder) >= cap && to.valid() {
        lemma_spent_allowance(granted, delegate, holder, to, cap);
    }
}

/// A delegated transfer that is not refused lowers the spender's cap on the
/// holder's account by exactly `amount`.
pub proof fn lemma_spent_allowance(
    s: LedgerView,
    spender: Seq<u8>,
    from: Party,
    to: Party,
    amount: u128,
)
    requires
        s.wf(),
        s.transfer_from_check(spender, from, to, amount) is Ok,
    ensures
        s.transfer_from(spender, from, to, amount).state.allowance_of(from, spender)
            == s.allowance_of(from, spender) - amount,
{
    let kf = from.key;
    let ks = spender;
    let kt = to.key;
    let left = (allowance_at(s.accounts, kf, ks) - amount) as u128;
    let spent = grant(s.accounts, kf, ks, left);
    lemma_grant(s.accounts, kf, ks, left);
    let taken = debit(spent, kf, amount);
    lemma_debit(spent, kf, amount);
    lemma_balance_le_sum(taken, kt);
    lemma_credit(taken, kt, amount);
    let after = s.transfer_from(spender, from, to, amount).state.accounts;
    if kt != kf {
        assert(record_at(after, kf) == record_at(taken, kf));
    }
}

/// Storage reclamation: a transfer that takes the whole balance of an account
/// without allowances, to an account with another key, removes the sender's
/// record; reading the sender then gives the empty record.
pub proof fn law_emptied_account_is_removed(s: LedgerView, from: Party, to: Party, amount: u128)
    requires
        s.wf(),
        s.transfer_check(from, to, amount) is Ok,
        amount == s.balance_of(from),
        record_at(s.accounts, from.key).allowances == Map::<Seq<u8>, u128>::empty(),
        from.key != to.key,
    ensures
        !s.transfer(from, to, amount).state.accounts.contains_key(from.key),
        record_at(s.transfer(from, to, amount).state.accounts, from.key)
            == AccountView::empty(),
        s.transfer(from, to, amount).state.balance_of(from) == 0,
{
}

/// No record of a well-formed ledger is empty: an account is stored only
/// while it has a balance or a cap.
pub proof fn law_no_empty_record_is_stored(s: LedgerView, key: Seq<u8>)
    requires
        s.wf(),
        s.accounts.contains_key(key),
    ensures
        s.accounts[key].balance > 0 || s.accounts[key].allowances.dom().len() > 0,
{
    let record = s.accounts[key];
    if record.balance == 0 {
        assert(!(record.allowances =~= Map::<Seq<u8>, u128>::empty()));
        let k = choose|k: Seq<u8>| record.allowances.contains_key(k);
        assert(record.allowances.dom().contains(k));
        vstd::set_lib::lemma_set_empty_equivalency_len(record.allowances.dom());
    }
}

/// Setting a cap is idempotent: made twice in a row, the call leaves what it
/// left the first time, and the cap is `amount`, not twice `amount`.
pub proof fn law_set_allowance_is_idempotent(
    s: LedgerView,
    holder: Party,
    delegate: Seq<u8>,
    amount: u128,
)
    requires
        holder.valid(),
    ensures
        ({
            let once = s.set_allowance(holder.name, holder, delegate, amount);
            let twice = once.state.set_allowance(holder.name, holder, delegate, amount);
            &&& once.result is Ok
            &&& twice.result is Ok
            &&& twice.state == once.state
            &&& twice.state.allowance_of(holder, delegate) == amount
        }),
{
    let kh = holder.key;
    let kd = delegate;
    let record = record_at(s.accounts, kh);
    let granted = record.with_allowance(kd, amount);
    let once = s.set_allowance(holder.name, holder, delegate, amount).state;
    lemma_put_get(s.accounts, kh, granted);
    assert(granted.with_allowance(kd, amount).allowances =~= granted.allowances);
    assert(granted.with_allowance(kd, amount) == granted);
    lemma_put_put(s.accounts, kh, granted, granted);
}

} // verus!
