//! An account as a caller names it.

use vstd::prelude::*;
use vstd::string::StringSliceAdditionalSpecFns;
use vstd::utf8::encode_utf8;
use crate::host::{is_valid_account_id, Key};
use crate::model::Party;

verus! {

/// The name of an account together with its storage key. The key is the
/// digest that the host computes from the name; whoever drives the ledger has
/// it computed and hands both in.
pub struct Principal {
    /// The name, as the host knows the account.
    pub id: String,
    /// The key under which the account's record is stored.
    pub key: Key,
}

impl View for Principal {
    type V = Party;

    open spec fn view(&self) -> Party {
        Party { name: encode_utf8(self.id@), key: self.key@ }
    }
}

impl Principal {
    /// The account named `id`, stored under `key`.
    pub fn new(id: &str, key: Key) -> (account: Self)
        ensures
            account@ == (Party { name: id.spec_bytes(), key: key@ }),
    {
        Principal { id: id.to_owned(), key }
    }

    /// Whether the name follows the host's rule for account names.
    pub fn is_valid(&self) -> (valid: bool)
        ensures
            valid == self@.valid(),
    {
        is_valid_account_id(self.id.as_str().as_bytes())
    }
}

impl Clone for Principal {
    /// A copy with the same name and key.
    fn clone(&self) -> (copy: Self)
        ensures
            copy@ == self@,
    {
        Principal { id: self.id.clone(), key: self.key }
    }
}

} // verus!
