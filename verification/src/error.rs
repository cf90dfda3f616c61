//! The failures a ledger operation can report.

use vstd::prelude::*;

verus! {

/// Why a ledger operation was refused. A refused operation changes nothing.
#[derive(Clone, Copy, Debug, PartialEq, Eq, Structural)]
pub enum LedgerError {
    /// The caller does not hold the role the operation asks for.
    Unauthorized,
    /// A debit is larger than the balance it is taken from.
    InsufficientBalance,
    /// A delegated debit is larger than the cap granted to the delegate.
    InsufficientAllowance,
    /// An account name does not follow the host's naming rules.
    InvalidIdentifier,
    /// Raising an allowance would leave the representable range.
    AllowanceOverflow,
    /// Another amount would leave the representable range.
    ArithmeticFault,
}

} // verus!
