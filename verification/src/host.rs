//! What the ledger takes from the NEAR host in its own code: the rule for
//! account names.
//!
//! The storage key of an account is the digest that the host computes from the
//! account's name. The ledger makes no call for it: whoever drives the ledger
//! has the host compute the key and hands it in beside the name.
//!
//! The contract in this file is not proved. It states what the function of
//! `near_sdk::env` does, and the rest of the library is verified against it.

use vstd::prelude::*;

verus! {

/// The number of bytes of a storage key.
pub const KEY_LEN: usize = 32;

/// A storage key: a digest of fixed size.
pub type Key = [u8; 32];

/// Whether `b` may join two runs of letters and digits in an account name.
pub open spec fn is_separator(b: u8) -> bool {
    b == 0x2d || b == 0x5f || b == 0x2e
}

/// Whether `b` is a lower-case ASCII letter or an ASCII digit.
pub open spec fn is_name_char(b: u8) -> bool {
    (0x61 <= b <= 0x7a) || (0x30 <= b <= 0x39)
}

/// The host's rule for account names: 2 to 64 bytes, each a lower-case letter,
/// a digit or one of the separators `-`, `_` and `.`; no separator at either
/// end, and no two separators in a row.
pub open spec fn valid_account_id(id: Seq<u8>) -> bool {
    &&& 2 <= id.len() <= 64
    &&& forall|i: int| 0 <= i < id.len() ==> is_name_char(#[trigger] id[i]) || is_separator(id[i])
    &&& !is_separator(id[0])
    &&& !is_separator(id[id.len() - 1])
    &&& forall|i: int|
        0 <= i < id.len() - 1 ==> !(is_separator(#[trigger] id[i]) && is_separator(id[i + 1]))
}

/// Calls `near_sdk::env::is_valid_account_id`, which checks a name against the
/// host's rule byte by byte and needs no host for it. The contract says that
/// the result is `valid_account_id` of the bytes.
#[verifier::external_body]
pub(crate) fn is_valid_account_id(id: &[u8]) -> (valid: bool)
    ensures
        valid == valid_account_id(id@),
{
    near_sdk::env::is_valid_account_id(id)
}

} // verus!
