use money_store::errors::StoreError;
use money_store::models::Account;
use money_store::models::AppData;
use money_store::models::Category;
use money_store::models::Settings;
use money_store::models::SettingsRow;
use money_store::models::Transaction;
use money_store::models::WindowPosition;
use money_store::models::WindowSize;
use money_store::store::Store;

fn account(id: &str) -> Account {
    Account {
        id: id.to_string(),
        name: format!("account {id}"),
        account_type: "checking".to_string(),
        initial_balance: 0,
        color: "#3b82f6".to_string(),
        icon: "Wallet".to_string(),
    }
}

fn category(id: &str) -> Category {
    Category {
        id: id.to_string(),
        name: format!("category {id}"),
        icon: "Tag".to_string(),
        color: "#6366f1".to_string(),
    }
}

fn tx(id: &str, date: &str, account_id: &str) -> Transaction {
    Transaction {
        id: id.to_string(),
        date: date.to_string(),
        account_id: account_id.to_string(),
        transaction_type: "income".to_string(),
        amount: 5000,
        category: "salary".to_string(),
        description: Some("pay".to_string()),
        checked: true,
        is_transfer: false,
        linked_transaction_id: None,
    }
}

fn snapshot_one() -> AppData {
    AppData {
        accounts: vec![account("a1")],
        transactions: vec![tx("t1", "2025-01-01", "a1")],
        categories: vec![category("c1")],
        scheduled: vec![],
    }
}

fn loaded_store() -> Store {
    let mut store = Store::new();
    store.create_tables(false).unwrap();
    store.import_data(snapshot_one(), false).unwrap();
    store
}

fn full_settings() -> Settings {
    Settings {
        theme: "dark".to_string(),
        primary_color: "#6366f1".to_string(),
        display_style: "modern".to_string(),
        window_position: Some(WindowPosition { x: 14, y: 22 }),
        window_size: Some(WindowSize { width: 1320, height: 790 }),
        account_groups: Some("[]".to_string()),
        custom_groups: None,
        custom_groups_order: None,
        accounts_order: Some("[\"a1\"]".to_string()),
        last_seen_version: Some("2025.1".to_string()),
        component_spacing: 6,
        component_padding: 8,
    }
}

#[test]
fn import_replaces_the_whole_dataset() {
    let mut store = loaded_store();
    let next = AppData {
        accounts: vec![account("b1"), account("b2")],
        transactions: vec![tx("u1", "2025-03-01", "b2")],
        categories: vec![],
        scheduled: vec![],
    };
    store.import_data(next, false).unwrap();
    let accounts = store.get_accounts(false).unwrap();
    assert_eq!(accounts.len(), 2);
    assert_eq!(accounts[0].id, "b1".to_string());
    assert_eq!(accounts[1].id, "b2".to_string());
    let txs = store.get_transactions(false).unwrap();
    assert_eq!(txs.len(), 1);
    assert_eq!(txs[0].id, "u1".to_string());
    assert_eq!(store.get_categories(false).unwrap().len(), 0);
}

#[test]
fn import_keeps_settings_untouched() {
    let mut store = loaded_store();
    store.save_settings(full_settings(), false).unwrap();
    store.import_data(snapshot_one(), false).unwrap();
    assert_eq!(store.get_settings(false).unwrap(), Some(full_settings()));
}

#[test]
fn import_with_duplicate_account_rolls_back() {
    let mut store = loaded_store();
    let bad = AppData {
        accounts: vec![account("b1"), account("b1")],
        transactions: vec![],
        categories: vec![],
        scheduled: vec![],
    };
    assert_eq!(store.import_data(bad, false), Err(StoreError::Unique));
    let accounts = store.get_accounts(false).unwrap();
    assert_eq!(accounts.len(), 1);
    assert_eq!(accounts[0].id, "a1".to_string());
    assert_eq!(store.get_transactions(false).unwrap().len(), 1);
    assert_eq!(store.get_categories(false).unwrap().len(), 1);
}

#[test]
fn import_with_dangling_transaction_rolls_back() {
    let mut store = loaded_store();
    let bad = AppData {
        accounts: vec![account("b1")],
        transactions: vec![tx("u1", "2025-03-01", "nowhere")],
        categories: vec![],
        scheduled: vec![],
    };
    assert_eq!(store.import_data(bad, false), Err(StoreError::ForeignKey));
    let accounts = store.get_accounts(false).unwrap();
    assert_eq!(accounts.len(), 1);
    assert_eq!(accounts[0].id, "a1".to_string());
}

#[test]
fn import_fault_rolls_back() {
    let mut store = loaded_store();
    let next = AppData {
        accounts: vec![account("b1")],
        transactions: vec![],
        categories: vec![],
        scheduled: vec![],
    };
    assert_eq!(store.import_data(next, true), Err(StoreError::Storage));
    let accounts = store.get_accounts(false).unwrap();
    assert_eq!(accounts.len(), 1);
    assert_eq!(accounts[0].id, "a1".to_string());
}

#[test]
fn settings_are_none_before_the_first_save() {
    let store = Store::new();
    assert_eq!(store.get_settings(false).unwrap(), None);
}

#[test]
fn settings_round_trip_every_field() {
    let mut store = Store::new();
    store.create_tables(false).unwrap();
    store.save_settings(full_settings(), false).unwrap();
    assert_eq!(store.get_settings(false).unwrap(), Some(full_settings()));
}

#[test]
fn settings_round_trip_without_window_data() {
    let mut store = Store::new();
    let mut s = full_settings();
    s.window_position = None;
    s.window_size = None;
    store.save_settings(s.clone(), false).unwrap();
    assert_eq!(store.get_settings(false).unwrap(), Some(s));
}

#[test]
fn half_stored_window_position_reads_back_as_absent() {
    let mut store = Store::new();
    store.settings = Some(SettingsRow {
        theme: "light".to_string(),
        primary_color: "#6366f1".to_string(),
        display_style: "modern".to_string(),
        window_position_x: Some(10),
        window_position_y: None,
        window_size_width: None,
        window_size_height: Some(500),
        account_groups: None,
        custom_groups: None,
        custom_groups_order: None,
        accounts_order: None,
        last_seen_version: None,
        component_spacing: 6,
        component_padding: 6,
    });
    let got = store.get_settings(false).unwrap().unwrap();
    assert_eq!(got.window_position, None);
    assert_eq!(got.window_size, None);
    assert_eq!(got.theme, "light".to_string());
}

#[test]
fn save_settings_overwrites_the_singleton_row() {
    let mut store = Store::new();
    store.save_settings(full_settings(), false).unwrap();
    let mut second = full_settings();
    second.theme = "light".to_string();
    second.window_position = None;
    store.save_settings(second.clone(), false).unwrap();
    assert_eq!(store.get_settings(false).unwrap(), Some(second));
}

#[test]
fn save_settings_fault_leaves_old_value() {
    let mut store = Store::new();
    store.save_settings(full_settings(), false).unwrap();
    let mut second = full_settings();
    second.theme = "light".to_string();
    assert_eq!(store.save_settings(second, true), Err(StoreError::Storage));
    assert_eq!(store.get_settings(false).unwrap(), Some(full_settings()));
}
