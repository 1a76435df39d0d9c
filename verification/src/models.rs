//! The persisted entities: four record types, the bulk-import payload,
//! and the settings structures.
//!
//! Monetary amounts are kept as signed integers counting minor currency
//! units, so that every balance is exact.

use vstd::prelude::*;
use crate::tables::AccountLinked;
use crate::tables::TableRow;

verus! {

/// A bank account.  `id` is caller-assigned and unique within the store.
#[derive(Debug, PartialEq)]
pub struct Account {
    pub id: String,
    pub name: String,
    pub account_type: String,
    pub initial_balance: i64,
    pub color: String,
    pub icon: String,
}

/// One ledger entry.  `account_id` must reference an existing `Account`.
#[derive(Debug, PartialEq)]
pub struct Transaction {
    pub id: String,
    pub date: String,
    pub account_id: String,
    pub transaction_type: String,
    pub amount: i64,
    pub category: String,
    pub description: Option<String>,
    pub checked: bool,
    pub is_transfer: bool,
    pub linked_transaction_id: Option<String>,
}

/// A free-text tag for grouping transactions; not a hard foreign key.
#[derive(Debug, PartialEq)]
pub struct Category {
    pub id: String,
    pub name: String,
    pub icon: String,
    pub color: String,
}

/// A recurring entry.  `account_id` must reference an existing `Account`;
/// `to_account_id` is advisory only and is not kept referentially intact.
#[derive(Debug, PartialEq)]
pub struct ScheduledTransaction {
    pub id: String,
    pub description: String,
    pub amount: i64,
    pub transaction_type: String,
    pub frequency: String,
    pub account_id: String,
    pub next_date: String,
    pub category: String,
    pub to_account_id: Option<String>,
    pub include_in_forecast: Option<bool>,
    pub end_date: Option<String>,
}

/// A full snapshot of the four entity tables, as handed to bulk import.
#[derive(Debug, PartialEq)]
pub struct AppData {
    pub accounts: Vec<Account>,
    pub transactions: Vec<Transaction>,
    pub categories: Vec<Category>,
    pub scheduled: Vec<ScheduledTransaction>,
}

#[derive(Clone, Copy, PartialEq, Eq, Structural, Debug)]
pub struct WindowPosition {
    pub x: i32,
    pub y: i32,
}

#[derive(Clone, Copy, PartialEq, Eq, Structural, Debug)]
pub struct WindowSize {
    pub width: i32,
    pub height: i32,
}

/// The application settings as the caller sees them.  The window
/// position and size are present only when both of their components
/// were stored.
#[derive(Debug, PartialEq)]
pub struct Settings {
    pub theme: String,
    pub primary_color: String,
    pub display_style: String,
    pub window_position: Option<WindowPosition>,
    pub window_size: Option<WindowSize>,
    pub account_groups: Option<String>,
    pub custom_groups: Option<String>,
    pub custom_groups_order: Option<String>,
    pub accounts_order: Option<String>,
    pub last_seen_version: Option<String>,
    pub component_spacing: i32,
    pub component_padding: i32,
}

/// The settings as the singleton row stores them: the window position
/// and size are flattened into four independently nullable columns.
#[derive(Debug, PartialEq)]
pub struct SettingsRow {
    pub theme: String,
    pub primary_color: String,
    pub display_style: String,
    pub window_position_x: Option<i32>,
    pub window_position_y: Option<i32>,
    pub window_size_width: Option<i32>,
    pub window_size_height: Option<i32>,
    pub account_groups: Option<String>,
    pub custom_groups: Option<String>,
    pub custom_groups_order: Option<String>,
    pub accounts_order: Option<String>,
    pub last_seen_version: Option<String>,
    pub component_spacing: i32,
    pub component_padding: i32,
}

fn clone_opt_string(s: &Option<String>) -> (r: Option<String>)
    ensures
        r == *s,
{
    match s {
        Some(v) => Some(v.clone()),
        None => None,
    }
}

impl Clone for Account {
    fn clone(&self) -> (r: Self)
        ensures
            r == *self,
    {
        Account {
            id: self.id.clone(),
            name: self.name.clone(),
            account_type: self.account_type.clone(),
            initial_balance: self.initial_balance,
            color: self.color.clone(),
            icon: self.icon.clone(),
        }
    }
}

impl Clone for Transaction {
    fn clone(&self) -> (r: Self)
        ensures
            r == *self,
    {
        Transaction {
            id: self.id.clone(),
            date: self.date.clone(),
            account_id: self.account_id.clone(),
            transaction_type: self.transaction_type.clone(),
            amount: self.amount,
            category: self.category.clone(),
            description: clone_opt_string(&self.description),
            checked: self.checked,
            is_transfer: self.is_transfer,
            linked_transaction_id: clone_opt_string(&self.linked_transaction_id),
        }
    }
}

impl Clone for Category {
    fn clone(&self) -> (r: Self)
        ensures
            r == *self,
    {
        Category {
            id: self.id.clone(),
            name: self.name.clone(),
            icon: self.icon.clone(),
            color: self.color.clone(),
        }
    }
}

impl Clone for ScheduledTransaction {
    fn clone(&self) -> (r: Self)
        ensures
            r == *self,
    {
        ScheduledTransaction {
            id: self.id.clone(),
            description: self.description.clone(),
            amount: self.amount,
            transaction_type: self.transaction_type.clone(),
            frequency: self.frequency.clone(),
            account_id: self.account_id.clone(),
            next_date: self.next_date.clone(),
            category: self.category.clone(),
            to_account_id: clone_opt_string(&self.to_account_id),
            include_in_forecast: self.include_in_forecast,
            end_date: clone_opt_string(&self.end_date),
        }
    }
}

impl Clone for Settings {
    fn clone(&self) -> (r: Self)
        ensures
            r == *self,
    {
        Settings {
            theme: self.theme.clone(),
            primary_color: self.primary_color.clone(),
            display_style: self.display_style.clone(),
            window_position: self.window_position,
            window_size: self.window_size,
            account_groups: clone_opt_string(&self.account_groups),
            custom_groups: clone_opt_string(&self.custom_groups),
            custom_groups_order: clone_opt_string(&self.custom_groups_order),
            accounts_order: clone_opt_string(&self.accounts_order),
            last_seen_version: clone_opt_string(&self.last_seen_version),
            component_spacing: self.component_spacing,
            component_padding: self.component_padding,
        }
    }
}

impl Clone for SettingsRow {
    fn clone(&self) -> (r: Self)
        ensures
            r == *self,
    {
        SettingsRow {
            theme: self.theme.clone(),
            primary_color: self.primary_color.clone(),
            display_style: self.display_style.clone(),
            window_position_x: self.window_position_x,
            window_position_y: self.window_position_y,
            window_size_width: self.window_size_width,
            window_size_height: self.window_size_height,
            account_groups: clone_opt_string(&self.account_groups),
            custom_groups: clone_opt_string(&self.custom_groups),
            custom_groups_order: clone_opt_string(&self.custom_groups_order),
            accounts_order: clone_opt_string(&self.accounts_order),
            last_seen_version: clone_opt_string(&self.last_seen_version),
            component_spacing: self.component_spacing,
            component_padding: self.component_padding,
        }
    }
}

impl TableRow for Account {
    open spec fn row_id(&self) -> Seq<char> {
        self.id@
    }

    fn row_id_ref(&self) -> (r: &String) {
        &self.id
    }

    fn duplicate(&self) -> (r: Self) {
        self.clone()
    }
}

impl TableRow for Transaction {
    open spec fn row_id(&self) -> Seq<char> {
        self.id@
    }

    fn row_id_ref(&self) -> (r: &String) {
        &self.id
    }

    fn duplicate(&self) -> (r: Self) {
        self.clone()
    }
}

impl AccountLinked for Transaction {
    open spec fn linked_account(&self) -> Seq<char> {
        self.account_id@
    }

    fn linked_account_ref(&self) -> (r: &String) {
        &self.account_id
    }
}

impl TableRow for Category {
    open spec fn row_id(&self) -> Seq<char> {
        self.id@
    }

    fn row_id_ref(&self) -> (r: &String) {
        &self.id
    }

    fn duplicate(&self) -> (r: Self) {
        self.clone()
    }
}

impl TableRow for ScheduledTransaction {
    open spec fn row_id(&self) -> Seq<char> {
        self.id@
    }

    fn row_id_ref(&self) -> (r: &String) {
        &self.id
    }

    fn duplicate(&self) -> (r: Self) {
        self.clone()
    }
}

impl AccountLinked for ScheduledTransaction {
    open spec fn linked_account(&self) -> Seq<char> {
        self.account_id@
    }

    fn linked_account_ref(&self) -> (r: &String) {
        &self.account_id
    }
}

/// How `save_settings` flattens the settings into the singleton row.
pub open spec fn spec_row_of_settings(s: Settings) -> SettingsRow {
    SettingsRow {
        theme: s.theme,
        primary_color: s.primary_color,
        display_style: s.display_style,
        window_position_x: match s.window_position {
            Some(p) => Some(p.x),
            None => None,
        },
        window_position_y: match s.window_position {
            Some(p) => Some(p.y),
            None => None,
        },
        window_size_width: match s.window_size {
            Some(z) => Some(z.width),
            None => None,
        },
        window_size_height: match s.window_size {
            Some(z) => Some(z.height),
            None => None,
        },
        account_groups: s.account_groups,
        custom_groups: s.custom_groups,
        custom_groups_order: s.custom_groups_order,
        accounts_order: s.accounts_order,
        last_seen_version: s.last_seen_version,
        component_spacing: s.component_spacing,
        component_padding: s.component_padding,
    }
}

/// How `get_settings` reconstructs the settings from the stored row:
/// a window position or size is reported only when both of its
/// components are present.
pub open spec fn spec_settings_of_row(r: SettingsRow) -> Settings {
    Settings {
        theme: r.theme,
        primary_color: r.primary_color,
        display_style: r.display_style,
        window_position: match (r.window_position_x, r.window_position_y) {
            (Some(x), Some(y)) => Some(WindowPosition { x, y }),
            _ => None,
        },
        window_size: match (r.window_size_width, r.window_size_height) {
            (Some(width), Some(height)) => Some(WindowSize { width, height }),
            _ => None,
        },
        account_groups: r.account_groups,
        custom_groups: r.custom_groups,
        custom_groups_order: r.custom_groups_order,
        accounts_order: r.accounts_order,
        last_seen_version: r.last_seen_version,
        component_spacing: r.component_spacing,
        component_padding: r.component_padding,
    }
}

/// Flattens the settings for storage.
pub fn settings_to_row(s: Settings) -> (r: SettingsRow)
    ensures
        r == spec_row_of_settings(s),
{
    let (pos_x, pos_y): (Option<i32>, Option<i32>) = match s.window_position {
        Some(p) => (Some(p.x), Some(p.y)),
        None => (None, None),
    };
    let (size_w, size_h): (Option<i32>, Option<i32>) = match s.window_size {
        Some(z) => (Some(z.width), Some(z.height)),
        None => (None, None),
    };
    SettingsRow {
        theme: s.theme,
        primary_color: s.primary_color,
        display_style: s.display_style,
        window_position_x: pos_x,
        window_position_y: pos_y,
        window_size_width: size_w,
        window_size_height: size_h,
        account_groups: s.account_groups,
        custom_groups: s.custom_groups,
        custom_groups_order: s.custom_groups_order,
        accounts_order: s.accounts_order,
        last_seen_version: s.last_seen_version,
        component_spacing: s.component_spacing,
        component_padding: s.component_padding,
    }
}

/// Reconstructs the settings from the stored row.
pub fn settings_from_row(r: SettingsRow) -> (s: Settings)
    ensures
        s == spec_settings_of_row(r),
{
    let window_position: Option<WindowPosition> = match (r.window_position_x, r.window_position_y) {
        (Some(x), Some(y)) => Some(WindowPosition { x, y }),
        _ => None,
    };
    let window_size: Option<WindowSize> = match (r.window_size_width, r.window_size_height) {
        (Some(width), Some(height)) => Some(WindowSize { width, height }),
        _ => None,
    };
    Settings {
        theme: r.theme,
        primary_color: r.primary_color,
        display_style: r.display_style,
        window_position,
        window_size,
        account_groups: r.account_groups,
        custom_groups: r.custom_groups,
        custom_groups_order: r.custom_groups_order,
        accounts_order: r.accounts_order,
        last_seen_version: r.last_seen_version,
        component_spacing: r.component_spacing,
        component_padding: r.component_padding,
    }
}

/// Saved settings read back unchanged: flattening to the row and
/// reconstructing is the identity, for every settings value.
pub proof fn lemma_settings_round_trip(s: Settings)
    ensures
        spec_settings_of_row(spec_row_of_settings(s)) == s,
{
}

/// The balance given to an account created without one.
pub fn default_balance() -> (r: i64)
    ensures
        r == 0,
{
    0
}

/// The color given to an account created without one.
pub fn default_color() -> (r: String)
    ensures
        r@ == "#3b82f6"@,
{
    String::from_str("#3b82f6")
}

/// The icon given to an account created without one.
pub fn default_icon() -> (r: String)
    ensures
        r@ == "Wallet"@,
{
    String::from_str("Wallet")
}

} // verus!
