use money_store::errors::StoreError;
use money_store::models::Account;
use money_store::models::Transaction;
use money_store::models::ScheduledTransaction;
use money_store::models::default_balance;
use money_store::models::default_color;
use money_store::models::default_icon;
use money_store::store::Store;

fn account(id: &str, name: &str) -> Account {
    Account {
        id: id.to_string(),
        name: name.to_string(),
        account_type: "checking".to_string(),
        initial_balance: 1000,
        color: default_color(),
        icon: default_icon(),
    }
}

fn tx(id: &str, date: &str, account_id: &str) -> Transaction {
    Transaction {
        id: id.to_string(),
        date: date.to_string(),
        account_id: account_id.to_string(),
        transaction_type: "expense".to_string(),
        amount: -250,
        category: "food".to_string(),
        description: None,
        checked: false,
        is_transfer: false,
        linked_transaction_id: None,
    }
}

fn sched(id: &str, account_id: &str) -> ScheduledTransaction {
    ScheduledTransaction {
        id: id.to_string(),
        description: "rent".to_string(),
        amount: -80000,
        transaction_type: "expense".to_string(),
        frequency: "monthly".to_string(),
        account_id: account_id.to_string(),
        next_date: "2025-02-01".to_string(),
        category: "housing".to_string(),
        to_account_id: None,
        include_in_forecast: Some(true),
        end_date: None,
    }
}

fn ready_store() -> Store {
    let mut store = Store::new();
    store.create_tables(false).unwrap();
    store
}

#[test]
fn defaults_match_the_fixed_fallbacks() {
    assert_eq!(default_balance(), 0);
    assert_eq!(default_color(), "#3b82f6".to_string());
    assert_eq!(default_icon(), "Wallet".to_string());
}

#[test]
fn add_account_lists_in_storage_order() {
    let mut store = ready_store();
    store.add_account(account("a1", "Checking"), false).unwrap();
    store.add_account(account("a2", "Savings"), false).unwrap();
    let listed = store.get_accounts(false).unwrap();
    assert_eq!(listed.len(), 2);
    assert_eq!(listed[0].id, "a1".to_string());
    assert_eq!(listed[1].id, "a2".to_string());
}

#[test]
fn add_account_twice_keeps_the_first_version() {
    let mut store = ready_store();
    store.add_account(account("a1", "First"), false).unwrap();
    store.add_account(account("a1", "Second"), false).unwrap();
    let listed = store.get_accounts(false).unwrap();
    assert_eq!(listed.len(), 1);
    assert_eq!(listed[0].name, "First".to_string());
}

#[test]
fn get_accounts_surfaces_a_storage_fault() {
    let store = ready_store();
    assert_eq!(store.get_accounts(true), Err(StoreError::Storage));
}

#[test]
fn update_account_replaces_the_row() {
    let mut store = ready_store();
    store.add_account(account("a1", "Old"), false).unwrap();
    let mut changed = account("a1", "New");
    changed.initial_balance = 777;
    store.update_account(changed, false).unwrap();
    let listed = store.get_accounts(false).unwrap();
    assert_eq!(listed.len(), 1);
    assert_eq!(listed[0].name, "New".to_string());
    assert_eq!(listed[0].initial_balance, 777);
}

#[test]
fn update_account_missing_id_changes_nothing() {
    let mut store = ready_store();
    store.add_account(account("a1", "Kept"), false).unwrap();
    store.update_account(account("ghost", "Nobody"), false).unwrap();
    let listed = store.get_accounts(false).unwrap();
    assert_eq!(listed.len(), 1);
    assert_eq!(listed[0].name, "Kept".to_string());
}

#[test]
fn add_transaction_requires_an_existing_account() {
    let mut store = ready_store();
    let r = store.add_transaction(tx("t1", "2025-01-01", "missing"), false);
    assert_eq!(r, Err(StoreError::ForeignKey));
    assert_eq!(store.get_transactions(false).unwrap().len(), 0);
}

#[test]
fn add_transaction_rejects_a_duplicate_id() {
    let mut store = ready_store();
    store.add_account(account("a1", "Checking"), false).unwrap();
    store.add_transaction(tx("t1", "2025-01-01", "a1"), false).unwrap();
    let r = store.add_transaction(tx("t1", "2025-01-02", "a1"), false);
    assert_eq!(r, Err(StoreError::Unique));
    let listed = store.get_transactions(false).unwrap();
    assert_eq!(listed.len(), 1);
    assert_eq!(listed[0].date, "2025-01-01".to_string());
}

#[test]
fn update_transaction_missing_id_succeeds_and_changes_nothing() {
    let mut store = ready_store();
    store.add_account(account("a1", "Checking"), false).unwrap();
    store.add_transaction(tx("t1", "2025-01-01", "a1"), false).unwrap();
    let r = store.update_transaction(tx("ghost", "2030-12-31", "a1"), false);
    assert_eq!(r, Ok(()));
    let listed = store.get_transactions(false).unwrap();
    assert_eq!(listed.len(), 1);
    assert_eq!(listed[0].id, "t1".to_string());
    assert_eq!(listed[0].date, "2025-01-01".to_string());
}

#[test]
fn update_transaction_rejects_a_dangling_account() {
    let mut store = ready_store();
    store.add_account(account("a1", "Checking"), false).unwrap();
    store.add_transaction(tx("t1", "2025-01-01", "a1"), false).unwrap();
    let r = store.update_transaction(tx("t1", "2025-01-01", "missing"), false);
    assert_eq!(r, Err(StoreError::ForeignKey));
    let listed = store.get_transactions(false).unwrap();
    assert_eq!(listed[0].account_id, "a1".to_string());
}

#[test]
fn transactions_list_newest_first() {
    let mut store = ready_store();
    store.add_account(account("a1", "Checking"), false).unwrap();
    store.add_transaction(tx("t2", "2025-06-15", "a1"), false).unwrap();
    store.add_transaction(tx("t3", "2025-12-01", "a1"), false).unwrap();
    store.add_transaction(tx("t1", "2025-01-05", "a1"), false).unwrap();
    let listed = store.get_transactions(false).unwrap();
    assert_eq!(listed.len(), 3);
    assert_eq!(listed[0].id, "t3".to_string());
    assert_eq!(listed[1].id, "t2".to_string());
    assert_eq!(listed[2].id, "t1".to_string());
}

#[test]
fn delete_transaction_missing_id_is_silent() {
    let mut store = ready_store();
    store.add_account(account("a1", "Checking"), false).unwrap();
    store.add_transaction(tx("t1", "2025-01-01", "a1"), false).unwrap();
    store.delete_transaction(&"ghost".to_string(), false).unwrap();
    assert_eq!(store.get_transactions(false).unwrap().len(), 1);
}

#[test]
fn delete_account_cascades_to_its_children_only() {
    let mut store = ready_store();
    store.add_account(account("a1", "Doomed"), false).unwrap();
    store.add_account(account("a2", "Kept"), false).unwrap();
    store.add_transaction(tx("t1", "2025-01-01", "a1"), false).unwrap();
    store.add_transaction(tx("t2", "2025-01-02", "a1"), false).unwrap();
    store.add_transaction(tx("t3", "2025-01-03", "a2"), false).unwrap();
    store.add_scheduled(sched("s1", "a1"), false).unwrap();
    store.add_scheduled(sched("s2", "a2"), false).unwrap();
    store.delete_account(&"a1".to_string(), false).unwrap();
    let accounts = store.get_accounts(false).unwrap();
    assert_eq!(accounts.len(), 1);
    assert_eq!(accounts[0].id, "a2".to_string());
    let txs = store.get_transactions(false).unwrap();
    assert_eq!(txs.len(), 1);
    assert_eq!(txs[0].id, "t3".to_string());
    let scheds = store.get_scheduled(false).unwrap();
    assert_eq!(scheds.len(), 1);
    assert_eq!(scheds[0].id, "s2".to_string());
}

#[test]
fn delete_account_fault_removes_nothing_at_all() {
    let mut store = ready_store();
    store.add_account(account("a1", "Doomed"), false).unwrap();
    store.add_transaction(tx("t1", "2025-01-01", "a1"), false).unwrap();
    store.add_transaction(tx("t2", "2025-01-02", "a1"), false).unwrap();
    store.add_scheduled(sched("s1", "a1"), false).unwrap();
    let r = store.delete_account(&"a1".to_string(), true);
    assert_eq!(r, Err(StoreError::Storage));
    assert_eq!(store.get_accounts(false).unwrap().len(), 1);
    assert_eq!(store.get_transactions(false).unwrap().len(), 2);
    assert_eq!(store.get_scheduled(false).unwrap().len(), 1);
}

#[test]
fn delete_account_missing_id_still_succeeds() {
    let mut store = ready_store();
    store.add_account(account("a1", "Kept"), false).unwrap();
    store.delete_account(&"ghost".to_string(), false).unwrap();
    assert_eq!(store.get_accounts(false).unwrap().len(), 1);
}

#[test]
fn scheduled_strict_insert_checks_key_and_account() {
    let mut store = ready_store();
    store.add_account(account("a1", "Checking"), false).unwrap();
    store.add_scheduled(sched("s1", "a1"), false).unwrap();
    assert_eq!(store.add_scheduled(sched("s1", "a1"), false), Err(StoreError::Unique));
    assert_eq!(store.add_scheduled(sched("s2", "missing"), false), Err(StoreError::ForeignKey));
    assert_eq!(store.get_scheduled(false).unwrap().len(), 1);
}

#[test]
fn update_scheduled_missing_id_changes_nothing() {
    let mut store = ready_store();
    store.add_account(account("a1", "Checking"), false).unwrap();
    store.add_scheduled(sched("s1", "a1"), false).unwrap();
    assert_eq!(store.update_scheduled(sched("ghost", "a1"), false), Ok(()));
    let listed = store.get_scheduled(false).unwrap();
    assert_eq!(listed.len(), 1);
    assert_eq!(listed[0].id, "s1".to_string());
}

#[test]
fn delete_scheduled_removes_the_row() {
    let mut store = ready_store();
    store.add_account(account("a1", "Checking"), false).unwrap();
    store.add_scheduled(sched("s1", "a1"), false).unwrap();
    store.delete_scheduled(&"s1".to_string(), false).unwrap();
    assert_eq!(store.get_scheduled(false).unwrap().len(), 0);
    store.delete_scheduled(&"s1".to_string(), false).unwrap();
}
