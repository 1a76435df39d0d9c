use money_store::errors::map_db_error;
use money_store::models::Account;
use money_store::schema::ColumnName;
use money_store::store::Store;

fn settings_columns(store: &Store) -> Vec<ColumnName> {
    store.schema.settings.clone().unwrap()
}

#[test]
fn migration_on_a_fresh_database_builds_the_full_schema() {
    let mut store = Store::new();
    assert_eq!(store.schema.accounts, None);
    store.create_tables(false).unwrap();
    assert_eq!(
        store.schema.accounts,
        Some(vec![
            ColumnName::Id,
            ColumnName::Name,
            ColumnName::Type,
            ColumnName::InitialBalance,
            ColumnName::Color,
            ColumnName::Icon,
        ])
    );
    assert_eq!(
        store.schema.scheduled_transactions,
        Some(vec![
            ColumnName::Id,
            ColumnName::Description,
            ColumnName::Amount,
            ColumnName::Type,
            ColumnName::Frequency,
            ColumnName::AccountId,
            ColumnName::NextDate,
            ColumnName::Category,
            ColumnName::ToAccountId,
            ColumnName::IncludeInForecast,
            ColumnName::EndDate,
        ])
    );
    assert_eq!(
        settings_columns(&store),
        vec![
            ColumnName::Id,
            ColumnName::Theme,
            ColumnName::PrimaryColor,
            ColumnName::DisplayStyle,
            ColumnName::WindowPositionX,
            ColumnName::WindowPositionY,
            ColumnName::WindowSizeWidth,
            ColumnName::WindowSizeHeight,
            ColumnName::ComponentSpacing,
            ColumnName::ComponentPadding,
            ColumnName::AccountGroups,
            ColumnName::CustomGroups,
            ColumnName::CustomGroupsOrder,
            ColumnName::AccountsOrder,
            ColumnName::LastSeenVersion,
        ]
    );
}

#[test]
fn migration_twice_is_identical_and_loses_no_rows() {
    let mut store = Store::new();
    store.create_tables(false).unwrap();
    store
        .add_account(Account {
            id: "a1".to_string(),
            name: "Checking".to_string(),
            account_type: "checking".to_string(),
            initial_balance: 12345,
            color: "#3b82f6".to_string(),
            icon: "Wallet".to_string(),
        }, false)
        .unwrap();
    let first_accounts = store.schema.accounts.clone();
    let first_transactions = store.schema.transactions.clone();
    let first_categories = store.schema.categories.clone();
    let first_scheduled = store.schema.scheduled_transactions.clone();
    let first_settings = store.schema.settings.clone();
    store.create_tables(false).unwrap();
    assert_eq!(store.schema.accounts, first_accounts);
    assert_eq!(store.schema.transactions, first_transactions);
    assert_eq!(store.schema.categories, first_categories);
    assert_eq!(store.schema.scheduled_transactions, first_scheduled);
    assert_eq!(store.schema.settings, first_settings);
    let rows = store.get_accounts(false).unwrap();
    assert_eq!(rows.len(), 1);
    assert_eq!(rows[0].initial_balance, 12345);
}

#[test]
fn migration_on_an_old_table_only_appends_columns() {
    let mut store = Store::new();
    store.schema.settings = Some(vec![
        ColumnName::Id,
        ColumnName::Theme,
        ColumnName::PrimaryColor,
        ColumnName::WindowPositionX,
        ColumnName::WindowPositionY,
        ColumnName::WindowSizeWidth,
        ColumnName::WindowSizeHeight,
    ]);
    store.create_tables(false).unwrap();
    assert_eq!(
        settings_columns(&store),
        vec![
            ColumnName::Id,
            ColumnName::Theme,
            ColumnName::PrimaryColor,
            ColumnName::WindowPositionX,
            ColumnName::WindowPositionY,
            ColumnName::WindowSizeWidth,
            ColumnName::WindowSizeHeight,
            ColumnName::DisplayStyle,
            ColumnName::ComponentSpacing,
            ColumnName::ComponentPadding,
            ColumnName::AccountGroups,
            ColumnName::CustomGroups,
            ColumnName::CustomGroupsOrder,
            ColumnName::AccountsOrder,
            ColumnName::LastSeenVersion,
        ]
    );
}

#[test]
fn foreign_key_messages_win_over_everything_else() {
    let msg = map_db_error(
        "error returned from database: FOREIGN KEY constraint failed",
        "suppression du compte",
    );
    assert_eq!(msg, "Impossible de supprimer cet élément car il est utilisé ailleurs.");
}

#[test]
fn unique_violations_get_the_already_exists_message() {
    let msg = map_db_error(
        "error returned from database: UNIQUE constraint failed: accounts.id",
        "ajout du compte",
    );
    assert_eq!(msg, "Un élément avec cet identifiant existe déjà.");
}

#[test]
fn other_errors_carry_the_context_and_raw_text() {
    let msg = map_db_error("disk I/O error", "ajout du compte");
    assert_eq!(msg, "Erreur BDD (ajout du compte): disk I/O error");
}
