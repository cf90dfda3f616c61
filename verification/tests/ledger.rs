use btoken::account::Account;
use btoken::btoken::BToken;
use btoken::error::LedgerError;
use btoken::principal::Principal;
use btoken::store::AccountStore;

/// Puts a host in place for the calling thread, as every call of a contract
/// finds one.
fn install_host() {
    let context = near_sdk::VMContext {
        current_account_id: "pool".to_string(),
        signer_account_id: "owner".to_string(),
        signer_account_pk: vec![0, 1, 2],
        predecessor_account_id: "owner".to_string(),
        input: vec![],
        block_index: 0,
        block_timestamp: 0,
        epoch_height: 0,
        account_balance: 0,
        account_locked_balance: 0,
        storage_usage: 0,
        attached_deposit: 0,
        prepaid_gas: 10u64.pow(18),
        random_seed: vec![0, 1, 2],
        is_view: false,
        output_data_receivers: vec![],
    };
    near_sdk::env::set_blockchain_interface(Box::new(near_sdk::MockedBlockchain::new(
        context,
        near_sdk::VMConfig::free(),
        near_sdk::RuntimeFeesConfig::free(),
        vec![],
        Default::default(),
        Default::default(),
    )));
}

/// The storage key of a name: the digest that the host computes.
fn digest(name: &str) -> [u8; 32] {
    let hash = near_sdk::env::sha256(name.as_bytes());
    let mut key = [0u8; 32];
    key.copy_from_slice(&hash);
    key
}

fn party(name: &str) -> Principal {
    Principal::new(name, digest(name))
}

fn funded(owner: &str, amount: u128) -> BToken {
    let mut ledger = BToken::new(owner, party(owner));
    assert_eq!(ledger.mint(owner, amount), Ok(()));
    ledger
}

#[test]
fn key_has_the_fixed_size_and_goes_with_the_name() {
    install_host();
    assert_eq!(digest("abc").len(), btoken::host::KEY_LEN);
    assert_ne!(digest("abc"), digest("abd"));
    let account = party("abc");
    assert_eq!(account.id, "abc");
    assert_eq!(account.key, digest("abc"));
    let copy = account.clone();
    assert_eq!(copy.id, "abc");
    assert_eq!(copy.key, account.key);
}

#[test]
fn names_that_follow_the_rule_are_valid() {
    install_host();
    for name in [
        "aa",
        "a-a",
        "100",
        "0o",
        "near",
        "b-o_w_e-n",
        "bro.wen",
        "a.b-a.ra",
        "over.9000",
        "illia.cheapaccounts.near",
        "10-4.8-2",
        "0123456789012345678901234567890123456789012345678901234567890123",
        "a.a",
    ] {
        assert!(party(name).is_valid(), "{}", name);
        assert!(AccountStore::new().get(&party(name)).is_ok(), "{}", name);
    }
}

#[test]
fn names_that_break_the_rule_are_invalid_identifiers() {
    install_host();
    for name in [
        "",
        "a",
        "A",
        "Abc",
        "-near",
        "near-",
        "-near-",
        "near.",
        ".near",
        "near@",
        "@near",
        "a..near",
        "nEar",
        "_bowen",
        "hello world",
        "abcdefghijklmnopqrstuvwxyz.abcdefghijklmnopqrstuvwxyz.abcdefghijklmnopqrstuvwxyz",
        "01234567890123456789012345678901234567890123456789012345678901234",
        "a-_a",
        "\u{e9}t\u{e9}",
    ] {
        assert!(!party(name).is_valid(), "{}", name);
        assert!(
            matches!(
                AccountStore::new().get(&party(name)),
                Err(LedgerError::InvalidIdentifier)
            ),
            "{}",
            name
        );
    }
}

#[test]
fn new_account_holds_nothing() {
    install_host();
    let account = Account::new();
    assert_eq!(account.balance, 0);
    assert!(account.is_empty());
    assert_eq!(account.get_allowance(&digest("user2")), 0);
}

#[test]
fn account_set_allowance_is_absolute() {
    install_host();
    let mut account = Account::new();
    account.set_allowance(&digest("user2"), 5);
    assert_eq!(account.get_allowance(&digest("user2")), 5);
    account.set_allowance(&digest("user2"), 5);
    assert_eq!(account.get_allowance(&digest("user2")), 5);
    account.set_allowance(&digest("user2"), 7);
    assert_eq!(account.get_allowance(&digest("user2")), 7);
    assert_eq!(account.get_allowance(&digest("user3")), 0);
    assert!(!account.is_empty());
}

#[test]
fn account_allowance_of_zero_is_not_stored() {
    install_host();
    let mut account = Account::new();
    account.set_allowance(&digest("user2"), 5);
    account.set_allowance(&digest("user3"), 6);
    assert_eq!(account.allowances.len(), 2);
    account.set_allowance(&digest("user2"), 0);
    assert_eq!(account.allowances.len(), 1);
    assert_eq!(account.get_allowance(&digest("user2")), 0);
    assert_eq!(account.get_allowance(&digest("user3")), 6);
    account.set_allowance(&digest("user3"), 0);
    assert!(account.is_empty());
    account.set_allowance(&digest("user4"), 0);
    assert!(account.is_empty());
}

#[test]
fn account_clone_holds_the_same() {
    install_host();
    let mut account = Account::new();
    account.balance = 9;
    account.set_allowance(&digest("user2"), 5);
    let copy = account.clone();
    account.set_allowance(&digest("user2"), 6);
    assert_eq!(copy.balance, 9);
    assert_eq!(copy.get_allowance(&digest("user2")), 5);
    assert_eq!(account.get_allowance(&digest("user2")), 6);
}

#[test]
fn store_reads_an_unknown_account_as_empty() {
    install_host();
    let store = AccountStore::new();
    let account = store.get(&party("user1")).unwrap();
    assert_eq!(account.balance, 0);
    assert!(account.is_empty());
    assert_eq!(store.len(), 0);
}

#[test]
fn store_keeps_what_was_put() {
    install_host();
    let mut store = AccountStore::new();
    let mut account = Account::new();
    account.balance = 12;
    account.set_allowance(&digest("user2"), 3);
    assert_eq!(store.put(&party("user1"), account), Ok(()));
    assert_eq!(store.len(), 1);
    let read = store.get(&party("user1")).unwrap();
    assert_eq!(read.balance, 12);
    assert_eq!(read.get_allowance(&digest("user2")), 3);
    assert!(store.contains_key(&digest("user1")));
    assert!(!store.contains_key(&digest("user2")));
    assert_eq!(store.get(&party("user2")).unwrap().balance, 0);
}

#[test]
fn store_overwrites_under_the_same_name() {
    install_host();
    let mut store = AccountStore::new();
    let mut first = Account::new();
    first.balance = 1;
    let mut second = Account::new();
    second.balance = 2;
    store.put(&party("user1"), first).unwrap();
    store.put(&party("user1"), second).unwrap();
    assert_eq!(store.len(), 1);
    assert_eq!(store.get(&party("user1")).unwrap().balance, 2);
}

#[test]
fn store_removes_an_account_that_holds_nothing() {
    install_host();
    let mut store = AccountStore::new();
    let mut account = Account::new();
    account.balance = 12;
    store.put(&party("user1"), account).unwrap();
    let mut other = Account::new();
    other.set_allowance(&digest("user3"), 1);
    store.put(&party("user2"), other).unwrap();
    assert_eq!(store.len(), 2);
    store.put(&party("user1"), Account::new()).unwrap();
    assert_eq!(store.len(), 1);
    assert!(!store.contains_key(&digest("user1")));
    // An allowance alone keeps the record.
    assert!(store.contains_key(&digest("user2")));
    store.put(&party("user9"), Account::new()).unwrap();
    assert_eq!(store.len(), 1);
}

#[test]
fn store_refuses_an_invalid_name_and_changes_nothing() {
    install_host();
    let mut store = AccountStore::new();
    let mut account = Account::new();
    account.balance = 12;
    store.put(&party("user1"), account).unwrap();
    let mut other = Account::new();
    other.balance = 5;
    assert_eq!(
        store.put(&party("User One"), other),
        Err(LedgerError::InvalidIdentifier)
    );
    assert_eq!(store.len(), 1);
    assert!(matches!(
        store.get(&party("User One")),
        Err(LedgerError::InvalidIdentifier)
    ));
    assert_eq!(store.get(&party("user1")).unwrap().balance, 12);
}

#[test]
fn new_ledger_has_no_units() {
    install_host();
    let ledger = BToken::new("owner", party("pool"));
    assert_eq!(ledger.total_supply(), 0);
    assert_eq!(ledger.balance(&party("owner")), 0);
    assert_eq!(ledger.balance(&party("pool")), 0);
    assert_eq!(ledger.accounts().len(), 0);
}

#[test]
fn mint_credits_the_custodial_account() {
    install_host();
    let mut ledger = BToken::new("owner", party("pool"));
    assert_eq!(ledger.mint("owner", 1000), Ok(()));
    assert_eq!(ledger.total_supply(), 1000);
    assert_eq!(ledger.balance(&party("pool")), 1000);
    assert_eq!(ledger.balance(&party("owner")), 0);
    assert_eq!(ledger.mint("owner", 1), Ok(()));
    assert_eq!(ledger.total_supply(), 1001);
    assert_eq!(ledger.balance(&party("pool")), 1001);
}

#[test]
fn mint_of_zero_changes_nothing() {
    install_host();
    let mut ledger = BToken::new("owner", party("pool"));
    assert_eq!(ledger.mint("owner", 0), Ok(()));
    assert_eq!(ledger.total_supply(), 0);
    assert_eq!(ledger.accounts().len(), 0);
}

#[test]
fn mint_by_another_caller_is_unauthorized() {
    install_host();
    let mut ledger = BToken::new("owner", party("pool"));
    ledger.mint("owner", 10).unwrap();
    assert_eq!(ledger.mint("user1", 5), Err(LedgerError::Unauthorized));
    assert_eq!(ledger.mint("pool", 5), Err(LedgerError::Unauthorized));
    assert_eq!(ledger.mint("", 5), Err(LedgerError::Unauthorized));
    assert_eq!(ledger.mint("owner1", 5), Err(LedgerError::Unauthorized));
    assert_eq!(ledger.total_supply(), 10);
    assert_eq!(ledger.balance(&party("pool")), 10);
    assert_eq!(ledger.accounts().len(), 1);
}

#[test]
fn mint_beyond_the_range_is_an_arithmetic_fault() {
    install_host();
    let mut ledger = BToken::new("owner", party("pool"));
    ledger.mint("owner", u128::MAX - 1).unwrap();
    assert_eq!(ledger.mint("owner", 2), Err(LedgerError::ArithmeticFault));
    assert_eq!(ledger.total_supply(), u128::MAX - 1);
    assert_eq!(ledger.balance(&party("pool")), u128::MAX - 1);
    assert_eq!(ledger.mint("owner", 1), Ok(()));
    assert_eq!(ledger.total_supply(), u128::MAX);
}

#[test]
fn mint_into_an_invalid_custodial_name_is_refused() {
    install_host();
    let mut ledger = BToken::new("owner", party("Not A Name"));
    assert_eq!(ledger.mint("owner", 5), Err(LedgerError::InvalidIdentifier));
    assert_eq!(ledger.mint("user1", 5), Err(LedgerError::Unauthorized));
    assert_eq!(ledger.burn("owner", 0), Err(LedgerError::InvalidIdentifier));
    assert_eq!(ledger.total_supply(), 0);
}

#[test]
fn burn_debits_the_custodial_account() {
    install_host();
    let mut ledger = BToken::new("owner", party("pool"));
    ledger.mint("owner", 1000).unwrap();
    assert_eq!(ledger.burn("owner", 400), Ok(()));
    assert_eq!(ledger.total_supply(), 600);
    assert_eq!(ledger.balance(&party("pool")), 600);
    assert_eq!(ledger.burn("owner", 600), Ok(()));
    assert_eq!(ledger.total_supply(), 0);
    assert_eq!(ledger.accounts().len(), 0);
}

#[test]
fn burn_of_more_than_the_custodial_balance_is_refused() {
    install_host();
    let mut ledger = BToken::new("owner", party("pool"));
    ledger.mint("owner", 1000).unwrap();
    ledger.push(&party("user1"), 300).unwrap();
    assert_eq!(
        ledger.burn("owner", 701),
        Err(LedgerError::InsufficientBalance)
    );
    assert_eq!(ledger.total_supply(), 1000);
    assert_eq!(ledger.balance(&party("pool")), 700);
    assert_eq!(ledger.burn("owner", 700), Ok(()));
    assert_eq!(ledger.total_supply(), 300);
}

#[test]
fn burn_by_another_caller_is_unauthorized() {
    install_host();
    let mut ledger = BToken::new("owner", party("pool"));
    ledger.mint("owner", 10).unwrap();
    assert_eq!(ledger.burn("pool", 5), Err(LedgerError::Unauthorized));
    // The caller is looked at before the balance.
    assert_eq!(ledger.burn("user1", 11), Err(LedgerError::Unauthorized));
    assert_eq!(ledger.total_supply(), 10);
    assert_eq!(ledger.balance(&party("pool")), 10);
}

#[test]
fn transfer_moves_the_amount() {
    install_host();
    let mut ledger = funded("owner", 1000);
    assert_eq!(ledger.transfer(&party("owner"), &party("user1"), 400), Ok(()));
    assert_eq!(ledger.balance(&party("owner")), 600);
    assert_eq!(ledger.balance(&party("user1")), 400);
    assert_eq!(ledger.total_supply(), 1000);
    assert_eq!(ledger.transfer(&party("user1"), &party("user2"), 150), Ok(()));
    assert_eq!(ledger.balance(&party("owner")), 600);
    assert_eq!(ledger.balance(&party("user1")), 250);
    assert_eq!(ledger.balance(&party("user2")), 150);
    assert_eq!(ledger.total_supply(), 1000);
}

#[test]
fn transfer_of_more_than_the_balance_is_refused() {
    install_host();
    let mut ledger = funded("owner", 1000);
    ledger.transfer(&party("owner"), &party("user1"), 400).unwrap();
    assert_eq!(
        ledger.transfer(&party("user1"), &party("user2"), 401),
        Err(LedgerError::InsufficientBalance)
    );
    assert_eq!(ledger.balance(&party("user1")), 400);
    assert_eq!(ledger.balance(&party("user2")), 0);
    assert_eq!(
        ledger.transfer(&party("user3"), &party("user2"), 1),
        Err(LedgerError::InsufficientBalance)
    );
    assert_eq!(ledger.accounts().len(), 2);
    assert_eq!(ledger.total_supply(), 1000);
}

#[test]
fn transfer_to_oneself_changes_nothing_but_needs_the_balance() {
    install_host();
    let mut ledger = funded("owner", 1000);
    assert_eq!(ledger.transfer(&party("owner"), &party("owner"), 1000), Ok(()));
    assert_eq!(ledger.balance(&party("owner")), 1000);
    assert_eq!(ledger.transfer(&party("owner"), &party("owner"), 1), Ok(()));
    assert_eq!(ledger.balance(&party("owner")), 1000);
    assert_eq!(
        ledger.transfer(&party("owner"), &party("owner"), 1001),
        Err(LedgerError::InsufficientBalance)
    );
    assert_eq!(ledger.balance(&party("owner")), 1000);
    assert_eq!(ledger.total_supply(), 1000);
    assert_eq!(ledger.accounts().len(), 1);
}

#[test]
fn transfer_of_zero_succeeds_and_changes_nothing() {
    install_host();
    let mut ledger = funded("owner", 1000);
    assert_eq!(ledger.transfer(&party("owner"), &party("user1"), 0), Ok(()));
    assert_eq!(ledger.transfer(&party("user1"), &party("user2"), 0), Ok(()));
    assert_eq!(ledger.transfer(&party("user1"), &party("user1"), 0), Ok(()));
    assert_eq!(ledger.balance(&party("owner")), 1000);
    assert_eq!(ledger.balance(&party("user1")), 0);
    assert_eq!(ledger.accounts().len(), 1);
    assert_eq!(ledger.total_supply(), 1000);
}

#[test]
fn transfer_with_an_invalid_name_is_refused() {
    install_host();
    let mut ledger = funded("owner", 1000);
    assert_eq!(
        ledger.transfer(&party("Owner"), &party("user1"), 1),
        Err(LedgerError::InvalidIdentifier)
    );
    assert_eq!(
        ledger.transfer(&party("owner"), &party("User 1"), 1),
        Err(LedgerError::InvalidIdentifier)
    );
    // The sender's balance is looked at before the receiver's name.
    assert_eq!(
        ledger.transfer(&party("owner"), &party("User 1"), 1001),
        Err(LedgerError::InsufficientBalance)
    );
    assert_eq!(ledger.balance(&party("owner")), 1000);
    assert_eq!(ledger.accounts().len(), 1);
}

#[test]
fn emptied_account_leaves_the_store() {
    install_host();
    let mut ledger = funded("owner", 1000);
    ledger.transfer(&party("owner"), &party("user1"), 400).unwrap();
    assert_eq!(ledger.accounts().len(), 2);
    let key = digest("user1");
    assert!(ledger.accounts().contains_key(&key));
    ledger.transfer(&party("user1"), &party("user2"), 400).unwrap();
    assert!(!ledger.accounts().contains_key(&key));
    assert_eq!(ledger.accounts().len(), 2);
    let read = ledger.accounts().get(&party("user1")).unwrap();
    assert_eq!(read.balance, 0);
    assert!(read.is_empty());
    assert_eq!(ledger.balance(&party("user1")), 0);
    // The record comes back with the next credit.
    ledger.transfer(&party("user2"), &party("user1"), 1).unwrap();
    assert!(ledger.accounts().contains_key(&key));
    assert_eq!(ledger.balance(&party("user1")), 1);
}

#[test]
fn emptied_account_with_an_allowance_stays_in_the_store() {
    install_host();
    let mut ledger = funded("owner", 1000);
    ledger.transfer(&party("owner"), &party("user1"), 400).unwrap();
    ledger.set_allowance("user1", &party("user1"), &digest("user2"), 5).unwrap();
    ledger.transfer(&party("user1"), &party("user3"), 400).unwrap();
    let key = digest("user1");
    assert!(ledger.accounts().contains_key(&key));
    assert_eq!(ledger.balance(&party("user1")), 0);
    assert_eq!(ledger.allowance_of(&party("user1"), &digest("user2")), 5);
    ledger.set_allowance("user1", &party("user1"), &digest("user2"), 0).unwrap();
    assert!(!ledger.accounts().contains_key(&key));
}

#[test]
fn allowance_is_enforced_and_consumed() {
    install_host();
    let mut ledger = funded("owner", 1000);
    ledger.transfer(&party("owner"), &party("alice"), 50).unwrap();
    assert_eq!(ledger.set_allowance("alice", &party("alice"), &digest("dave"), 10), Ok(()));
    assert_eq!(ledger.allowance_of(&party("alice"), &digest("dave")), 10);
    assert_eq!(
        ledger.transfer_from(&digest("dave"), &party("alice"), &party("bob"), 11),
        Err(LedgerError::InsufficientAllowance)
    );
    assert_eq!(ledger.balance(&party("alice")), 50);
    assert_eq!(ledger.balance(&party("bob")), 0);
    assert_eq!(ledger.allowance_of(&party("alice"), &digest("dave")), 10);
    assert_eq!(ledger.transfer_from(&digest("dave"), &party("alice"), &party("bob"), 10), Ok(()));
    assert_eq!(ledger.balance(&party("alice")), 40);
    assert_eq!(ledger.balance(&party("bob")), 10);
    assert_eq!(ledger.allowance_of(&party("alice"), &digest("dave")), 0);
    assert_eq!(
        ledger.transfer_from(&digest("dave"), &party("alice"), &party("bob"), 10),
        Err(LedgerError::InsufficientAllowance)
    );
    assert_eq!(ledger.balance(&party("alice")), 40);
    assert_eq!(ledger.balance(&party("bob")), 10);
    assert_eq!(ledger.total_supply(), 1000);
}

#[test]
fn transfer_from_without_an_allowance_is_refused() {
    install_host();
    let mut ledger = funded("owner", 1000);
    assert_eq!(
        ledger.transfer_from(&digest("user2"), &party("owner"), &party("user2"), 1),
        Err(LedgerError::InsufficientAllowance)
    );
    // Not even the holder spends for itself without a cap.
    assert_eq!(
        ledger.transfer_from(&digest("owner"), &party("owner"), &party("user2"), 1),
        Err(LedgerError::InsufficientAllowance)
    );
    assert_eq!(ledger.transfer_from(&digest("user2"), &party("owner"), &party("user2"), 0), Ok(()));
    assert_eq!(ledger.balance(&party("owner")), 1000);
    assert_eq!(ledger.balance(&party("user2")), 0);
}

#[test]
fn transfer_from_looks_at_the_allowance_before_the_balance() {
    install_host();
    let mut ledger = funded("owner", 1000);
    ledger.transfer(&party("owner"), &party("alice"), 5).unwrap();
    ledger.set_allowance("alice", &party("alice"), &digest("dave"), 10).unwrap();
    assert_eq!(
        ledger.transfer_from(&digest("dave"), &party("alice"), &party("bob"), 11),
        Err(LedgerError::InsufficientAllowance)
    );
    assert_eq!(
        ledger.transfer_from(&digest("dave"), &party("alice"), &party("bob"), 6),
        Err(LedgerError::InsufficientBalance)
    );
    assert_eq!(ledger.allowance_of(&party("alice"), &digest("dave")), 10);
    assert_eq!(ledger.balance(&party("alice")), 5);
    assert_eq!(
        ledger.transfer_from(&digest("dave"), &party("Alice"), &party("bob"), 1),
        Err(LedgerError::InvalidIdentifier)
    );
    assert_eq!(
        ledger.transfer_from(&digest("dave"), &party("alice"), &party("Bob"), 1),
        Err(LedgerError::InvalidIdentifier)
    );
    assert_eq!(ledger.allowance_of(&party("alice"), &digest("dave")), 10);
    assert_eq!(ledger.transfer_from(&digest("dave"), &party("alice"), &party("bob"), 5), Ok(()));
    assert_eq!(ledger.allowance_of(&party("alice"), &digest("dave")), 5);
    assert_eq!(ledger.balance(&party("alice")), 0);
    assert_eq!(ledger.balance(&party("bob")), 5);
}

#[test]
fn transfer_from_to_the_holder_itself_uses_up_the_allowance_only() {
    install_host();
    let mut ledger = funded("owner", 1000);
    ledger.set_allowance("owner", &party("owner"), &digest("dave"), 10).unwrap();
    assert_eq!(ledger.transfer_from(&digest("dave"), &party("owner"), &party("owner"), 4), Ok(()));
    assert_eq!(ledger.balance(&party("owner")), 1000);
    assert_eq!(ledger.allowance_of(&party("owner"), &digest("dave")), 6);
    assert_eq!(ledger.total_supply(), 1000);
}

#[test]
fn set_allowance_twice_is_as_once() {
    install_host();
    let mut ledger = BToken::new("owner", party("pool"));
    assert_eq!(ledger.set_allowance("alice", &party("alice"), &digest("dave"), 5), Ok(()));
    assert_eq!(ledger.set_allowance("alice", &party("alice"), &digest("dave"), 5), Ok(()));
    assert_eq!(ledger.allowance_of(&party("alice"), &digest("dave")), 5);
    assert_eq!(ledger.accounts().len(), 1);
}

#[test]
fn set_allowance_by_another_caller_is_unauthorized() {
    install_host();
    let mut ledger = funded("owner", 1000);
    assert_eq!(
        ledger.set_allowance("owner", &party("user1"), &digest("user2"), 100),
        Err(LedgerError::Unauthorized)
    );
    assert_eq!(
        ledger.inc_allowance("owner", &party("user1"), &digest("user2"), 100),
        Err(LedgerError::Unauthorized)
    );
    assert_eq!(
        ledger.dec_allowance("owner", &party("user1"), &digest("user2"), 0),
        Err(LedgerError::Unauthorized)
    );
    assert_eq!(ledger.allowance_of(&party("user1"), &digest("user2")), 0);
    assert_eq!(
        ledger.set_allowance("User 1", &party("User 1"), &digest("user2"), 100),
        Err(LedgerError::InvalidIdentifier)
    );
    assert_eq!(ledger.accounts().len(), 1);
}

#[test]
fn inc_and_dec_allowance_move_the_cap() {
    install_host();
    let mut ledger = BToken::new("owner", party("pool"));
    assert_eq!(ledger.inc_allowance("alice", &party("alice"), &digest("dave"), 5), Ok(()));
    assert_eq!(ledger.inc_allowance("alice", &party("alice"), &digest("dave"), 7), Ok(()));
    assert_eq!(ledger.allowance_of(&party("alice"), &digest("dave")), 12);
    assert_eq!(ledger.dec_allowance("alice", &party("alice"), &digest("dave"), 2), Ok(()));
    assert_eq!(ledger.allowance_of(&party("alice"), &digest("dave")), 10);
    assert_eq!(
        ledger.dec_allowance("alice", &party("alice"), &digest("dave"), 11),
        Err(LedgerError::ArithmeticFault)
    );
    assert_eq!(ledger.allowance_of(&party("alice"), &digest("dave")), 10);
    assert_eq!(ledger.dec_allowance("alice", &party("alice"), &digest("dave"), 10), Ok(()));
    assert_eq!(ledger.allowance_of(&party("alice"), &digest("dave")), 0);
    assert_eq!(ledger.accounts().len(), 0);
}

#[test]
fn inc_allowance_beyond_the_range_is_an_overflow() {
    install_host();
    let mut ledger = BToken::new("owner", party("pool"));
    ledger
        .set_allowance("alice", &party("alice"), &digest("dave"), u128::MAX - 1)
        .unwrap();
    assert_eq!(
        ledger.inc_allowance("alice", &party("alice"), &digest("dave"), 2),
        Err(LedgerError::AllowanceOverflow)
    );
    assert_eq!(ledger.allowance_of(&party("alice"), &digest("dave")), u128::MAX - 1);
    assert_eq!(ledger.inc_allowance("alice", &party("alice"), &digest("dave"), 1), Ok(()));
    assert_eq!(ledger.allowance_of(&party("alice"), &digest("dave")), u128::MAX);
}

#[test]
fn reads_of_an_invalid_name_give_zero() {
    install_host();
    let ledger = funded("owner", 1000);
    assert_eq!(ledger.balance(&party("Owner")), 0);
    assert_eq!(ledger.balance(&party("")), 0);
    assert_eq!(ledger.allowance_of(&party("Owner"), &digest("user1")), 0);
    assert_eq!(ledger.allowance_of(&party("owner"), &digest("Any Text")), 0);
}

#[test]
fn push_and_pull_move_between_the_custodial_account_and_another() {
    install_host();
    let mut ledger = BToken::new("owner", party("pool"));
    ledger.mint("owner", 100).unwrap();
    assert_eq!(ledger.push(&party("user1"), 30), Ok(()));
    assert_eq!(ledger.balance(&party("pool")), 70);
    assert_eq!(ledger.balance(&party("user1")), 30);
    assert_eq!(ledger.pull(&party("user1"), 10), Ok(()));
    assert_eq!(ledger.balance(&party("pool")), 80);
    assert_eq!(ledger.balance(&party("user1")), 20);
    assert_eq!(ledger.pull(&party("user1"), 21), Err(LedgerError::InsufficientBalance));
    assert_eq!(ledger.push(&party("user1"), 81), Err(LedgerError::InsufficientBalance));
    assert_eq!(ledger.push(&party("User 1"), 1), Err(LedgerError::InvalidIdentifier));
    assert_eq!(ledger.total_supply(), 100);
}

#[test]
fn supply_is_the_sum_of_all_balances() {
    install_host();
    let names = ["owner", "user1", "user2", "user3", "pool"];
    let mut ledger = BToken::new("owner", party("pool"));
    let sum = |ledger: &BToken| -> u128 {
        names.iter().map(|n| ledger.balance(&party(n))).sum()
    };
    ledger.mint("owner", 1000).unwrap();
    assert_eq!(sum(&ledger), ledger.total_supply());
    ledger.push(&party("owner"), 600).unwrap();
    assert_eq!(sum(&ledger), ledger.total_supply());
    ledger.transfer(&party("owner"), &party("user1"), 250).unwrap();
    assert_eq!(sum(&ledger), ledger.total_supply());
    let _ = ledger.transfer(&party("user1"), &party("user2"), 251);
    assert_eq!(sum(&ledger), ledger.total_supply());
    ledger.set_allowance("user1", &party("user1"), &digest("user3"), 100).unwrap();
    ledger.transfer_from(&digest("user3"), &party("user1"), &party("user3"), 70).unwrap();
    assert_eq!(sum(&ledger), ledger.total_supply());
    let _ = ledger.transfer_from(&digest("user3"), &party("user1"), &party("user3"), 70);
    assert_eq!(sum(&ledger), ledger.total_supply());
    ledger.pull(&party("user3"), 70).unwrap();
    ledger.burn("owner", 470).unwrap();
    assert_eq!(sum(&ledger), ledger.total_supply());
    assert_eq!(ledger.total_supply(), 530);
    let _ = ledger.mint("user1", 5);
    let _ = ledger.burn("owner", 1000);
    assert_eq!(sum(&ledger), ledger.total_supply());
    assert_eq!(ledger.total_supply(), 530);
}

#[test]
fn owner_mints_transfers_and_a_delegate_spends() {
    install_host();
    let mut ledger = BToken::new("owner", party("owner"));
    assert_eq!(ledger.mint("owner", 1000), Ok(()));
    assert_eq!(ledger.total_supply(), 1000);
    assert_eq!(ledger.balance(&party("owner")), 1000);

    assert_eq!(ledger.transfer(&party("owner"), &party("user1"), 400), Ok(()));
    assert_eq!(ledger.balance(&party("owner")), 600);
    assert_eq!(ledger.balance(&party("user1")), 400);
    assert_eq!(ledger.total_supply(), 1000);

    assert_eq!(
        ledger.set_allowance("owner", &party("user1"), &digest("user2"), 100),
        Err(LedgerError::Unauthorized)
    );
    assert_eq!(ledger.allowance_of(&party("user1"), &digest("user2")), 0);
    assert_eq!(ledger.set_allowance("user1", &party("user1"), &digest("user2"), 100), Ok(()));
    assert_eq!(ledger.allowance_of(&party("user1"), &digest("user2")), 100);

    assert_eq!(ledger.transfer_from(&digest("user2"), &party("user1"), &party("user3"), 60), Ok(()));
    assert_eq!(ledger.balance(&party("user1")), 340);
    assert_eq!(ledger.balance(&party("user3")), 60);
    assert_eq!(ledger.allowance_of(&party("user1"), &digest("user2")), 40);
    assert_eq!(ledger.balance(&party("owner")), 600);
    assert_eq!(ledger.total_supply(), 1000);
}

#[test]
fn store_lists_each_key_once() {
    install_host();
    let mut ledger = funded("owner", 1000);
    ledger.transfer(&party("owner"), &party("user1"), 400).unwrap();
    ledger.transfer(&party("owner"), &party("user2"), 100).unwrap();
    let mut keys = ledger.accounts().keys();
    keys.sort();
    let mut expected = vec![
        digest("owner"),
        digest("user1"),
        digest("user2"),
    ];
    expected.sort();
    assert_eq!(keys, expected);
    assert_eq!(ledger.accounts().get_by_key(&expected[0]).is_empty(), false);
}

#[test]
fn store_sums_its_balances() {
    install_host();
    let mut store = AccountStore::new();
    assert_eq!(store.sum_of_balances(), Some(0));
    let mut first = Account::new();
    first.balance = 7;
    store.put(&party("user1"), first).unwrap();
    let mut second = Account::new();
    second.balance = 35;
    store.put(&party("user2"), second).unwrap();
    let mut third = Account::new();
    third.set_allowance(&digest("user1"), 9);
    store.put(&party("user3"), third).unwrap();
    assert_eq!(store.sum_of_balances(), Some(42));
    let mut large = Account::new();
    large.balance = u128::MAX - 41;
    store.put(&party("user4"), large).unwrap();
    assert_eq!(store.sum_of_balances(), None);
}

#[test]
fn ledger_is_restored_only_with_the_supply_that_its_balances_sum_to() {
    install_host();
    let mut store = AccountStore::new();
    let mut first = Account::new();
    first.balance = 600;
    store.put(&party("owner"), first).unwrap();
    let mut second = Account::new();
    second.balance = 400;
    second.set_allowance(&digest("user2"), 100);
    store.put(&party("user1"), second).unwrap();
    assert!(BToken::restore("owner", party("pool"), 999, store).is_none());

    let mut store = AccountStore::new();
    let mut first = Account::new();
    first.balance = 600;
    store.put(&party("owner"), first).unwrap();
    let mut second = Account::new();
    second.balance = 400;
    second.set_allowance(&digest("user2"), 100);
    store.put(&party("user1"), second).unwrap();
    let mut ledger = BToken::restore("owner", party("pool"), 1000, store).unwrap();
    assert_eq!(ledger.owner(), "owner");
    assert_eq!(ledger.custodian().id, "pool");
    assert_eq!(ledger.custodian().key, digest("pool"));
    assert_eq!(ledger.total_supply(), 1000);
    assert_eq!(ledger.balance(&party("user1")), 400);
    assert_eq!(ledger.allowance_of(&party("user1"), &digest("user2")), 100);
    assert_eq!(ledger.transfer_from(&digest("user2"), &party("user1"), &party("user3"), 60), Ok(()));
    assert_eq!(ledger.balance(&party("user3")), 60);
    assert_eq!(ledger.mint("owner", 1), Ok(()));
    assert_eq!(ledger.balance(&party("pool")), 1);
}
