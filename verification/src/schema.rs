//! The live database schema, modelled as the column list of each table,
//! and the additive startup migration.
//!
//! There is no migration-version ledger: the live schema is the version
//! marker.  Each table is created with its baseline columns if it does
//! not exist, and every column introduced after the baseline is probed
//! for and added when absent.  Migration therefore never drops or
//! rewrites anything, and running it twice changes nothing.

use vstd::prelude::*;

verus! {

/// Every column of the five tables.
#[derive(Clone, Copy, PartialEq, Eq, Structural, Debug)]
pub enum ColumnName {
    Id,
    Name,
    Type,
    InitialBalance,
    Color,
    Icon,
    Date,
    AccountId,
    Amount,
    Category,
    Description,
    Checked,
    IsTransfer,
    LinkedTransactionId,
    Frequency,
    NextDate,
    ToAccountId,
    IncludeInForecast,
    EndDate,
    Theme,
    PrimaryColor,
    DisplayStyle,
    WindowPositionX,
    WindowPositionY,
    WindowSizeWidth,
    WindowSizeHeight,
    ComponentSpacing,
    ComponentPadding,
    AccountGroups,
    CustomGroups,
    CustomGroupsOrder,
    AccountsOrder,
    LastSeenVersion,
}

/// The column lists of the five tables; `None` means the table does not
/// exist yet.
#[derive(Debug, PartialEq)]
pub struct Schema {
    pub accounts: Option<Vec<ColumnName>>,
    pub transactions: Option<Vec<ColumnName>>,
    pub categories: Option<Vec<ColumnName>>,
    pub scheduled_transactions: Option<Vec<ColumnName>>,
    pub settings: Option<Vec<ColumnName>>,
}

pub struct SchemaView {
    pub accounts: Option<Seq<ColumnName>>,
    pub transactions: Option<Seq<ColumnName>>,
    pub categories: Option<Seq<ColumnName>>,
    pub scheduled_transactions: Option<Seq<ColumnName>>,
    pub settings: Option<Seq<ColumnName>>,
}

pub open spec fn table_view(t: Option<Vec<ColumnName>>) -> Option<Seq<ColumnName>> {
    match t {
        Some(cols) => Some(cols@),
        None => None,
    }
}

impl View for Schema {
    type V = SchemaView;

    open spec fn view(&self) -> SchemaView {
        SchemaView {
            accounts: table_view(self.accounts),
            transactions: table_view(self.transactions),
            categories: table_view(self.categories),
            scheduled_transactions: table_view(self.scheduled_transactions),
            settings: table_view(self.settings),
        }
    }
}

impl SchemaView {
    /// The schema of a database file that was just created: no tables.
    pub open spec fn init() -> SchemaView {
        SchemaView {
            accounts: None,
            transactions: None,
            categories: None,
            scheduled_transactions: None,
            settings: None,
        }
    }
}

pub open spec fn baseline_accounts() -> Seq<ColumnName> {
    seq![
        ColumnName::Id,
        ColumnName::Name,
        ColumnName::Type,
        ColumnName::InitialBalance,
        ColumnName::Color,
        ColumnName::Icon,
    ]
}

pub open spec fn baseline_transactions() -> Seq<ColumnName> {
    seq![
        ColumnName::Id,
        ColumnName::Date,
        ColumnName::AccountId,
        ColumnName::Type,
        ColumnName::Amount,
        ColumnName::Category,
        ColumnName::Description,
        ColumnName::Checked,
        ColumnName::IsTransfer,
        ColumnName::LinkedTransactionId,
    ]
}

pub open spec fn baseline_categories() -> Seq<ColumnName> {
    seq![ColumnName::Id, ColumnName::Name, ColumnName::Icon, ColumnName::Color]
}

pub open spec fn baseline_scheduled() -> Seq<ColumnName> {
    seq![
        ColumnName::Id,
        ColumnName::Description,
        ColumnName::Amount,
        ColumnName::Type,
        ColumnName::Frequency,
        ColumnName::AccountId,
        ColumnName::NextDate,
        ColumnName::Category,
    ]
}

pub open spec fn baseline_settings() -> Seq<ColumnName> {
    seq![
        ColumnName::Id,
        ColumnName::Theme,
        ColumnName::PrimaryColor,
        ColumnName::DisplayStyle,
        ColumnName::WindowPositionX,
        ColumnName::WindowPositionY,
        ColumnName::WindowSizeWidth,
        ColumnName::WindowSizeHeight,
        ColumnName::ComponentSpacing,
        ColumnName::ComponentPadding,
    ]
}

/// The columns added after the baseline, probed for one by one.
pub open spec fn additive_scheduled() -> Seq<ColumnName> {
    seq![ColumnName::ToAccountId, ColumnName::IncludeInForecast, ColumnName::EndDate]
}

pub open spec fn additive_settings() -> Seq<ColumnName> {
    seq![
        ColumnName::DisplayStyle,
        ColumnName::ComponentSpacing,
        ColumnName::ComponentPadding,
        ColumnName::AccountGroups,
        ColumnName::CustomGroups,
        ColumnName::CustomGroupsOrder,
        ColumnName::AccountsOrder,
        ColumnName::LastSeenVersion,
    ]
}

/// One probe-then-alter step: add the column only when it is absent.
pub open spec fn add_if_missing(cols: Seq<ColumnName>, c: ColumnName) -> Seq<ColumnName> {
    if cols.contains(c) {
        cols
    } else {
        cols.push(c)
    }
}

pub open spec fn add_all_missing(cols: Seq<ColumnName>, added: Seq<ColumnName>) -> Seq<ColumnName>
    decreases added.len(),
{
    if added.len() == 0 {
        cols
    } else {
        add_all_missing(add_if_missing(cols, added.first()), added.drop_first())
    }
}

/// Create-if-absent: an existing table keeps its columns.
pub open spec fn created(t: Option<Seq<ColumnName>>, baseline: Seq<ColumnName>) -> Seq<
    ColumnName,
> {
    match t {
        Some(cols) => cols,
        None => baseline,
    }
}

/// What one migration run leaves of the whole schema.
pub open spec fn migrated(s: SchemaView) -> SchemaView {
    SchemaView {
        accounts: Some(created(s.accounts, baseline_accounts())),
        transactions: Some(created(s.transactions, baseline_transactions())),
        categories: Some(created(s.categories, baseline_categories())),
        scheduled_transactions: Some(
            add_all_missing(
                created(s.scheduled_transactions, baseline_scheduled()),
                additive_scheduled(),
            ),
        ),
        settings: Some(
            add_all_missing(created(s.settings, baseline_settings()), additive_settings()),
        ),
    }
}

proof fn lemma_push_contains(s: Seq<ColumnName>, x: ColumnName, y: ColumnName)
    ensures
        s.push(x).contains(y) == (s.contains(y) || x == y),
{
    if s.contains(y) {
        let i = choose|i: int| 0 <= i < s.len() && s[i] == y;
        assert(s.push(x)[i] == y);
    }
    if x == y {
        assert(s.push(x)[s.len() as int] == y);
    }
    if s.push(x).contains(y) {
        let i = choose|i: int| 0 <= i < s.push(x).len() && s.push(x)[i] == y;
        if i < s.len() {
            assert(s[i] == y);
        }
    }
}

proof fn lemma_add_if_missing_contains(cols: Seq<ColumnName>, c: ColumnName, d: ColumnName)
    ensures
        add_if_missing(cols, c).contains(d) == (cols.contains(d) || c == d),
{
    if cols.contains(c) {
    } else {
        lemma_push_contains(cols, c, d);
    }
}

proof fn lemma_add_all_missing_contains(cols: Seq<ColumnName>, added: Seq<ColumnName>, d: ColumnName)
    ensures
        add_all_missing(cols, added).contains(d) == (cols.contains(d) || added.contains(d)),
    decreases added.len(),
{
    if added.len() == 0 {
    } else {
        lemma_add_if_missing_contains(cols, added.first(), d);
        lemma_add_all_missing_contains(add_if_missing(cols, added.first()), added.drop_first(), d);
        assert(added.contains(d) == (added.first() == d || added.drop_first().contains(d))) by {
            if added.contains(d) {
                let i = choose|i: int| 0 <= i < added.len() && added[i] == d;
                if i > 0 {
                    assert(added.drop_first()[i - 1] == d);
                }
            }
            if added.drop_first().contains(d) {
                let i = choose|i: int| 0 <= i < added.drop_first().len()
                    && added.drop_first()[i] == d;
                assert(added[i + 1] == d);
            }
        }
    }
}

proof fn lemma_add_all_missing_noop(cols: Seq<ColumnName>, added: Seq<ColumnName>)
    requires
        forall|i: int| 0 <= i < added.len() ==> cols.contains(#[trigger] added[i]),
    ensures
        add_all_missing(cols, added) == cols,
    decreases added.len(),
{
    if added.len() == 0 {
    } else {
        assert(cols.contains(added.first()));
        assert(add_if_missing(cols, added.first()) == cols);
        assert(forall|i: int|
            0 <= i < added.drop_first().len() ==> cols.contains(
                #[trigger] added.drop_first()[i],
            ));
        lemma_add_all_missing_noop(cols, added.drop_first());
    }
}

/// Running migration a second time changes nothing: every table already
/// exists and every probed column is already present.
pub proof fn lemma_migration_idempotent(s: SchemaView)
    ensures
        migrated(migrated(s)) == migrated(s),
{
    let m = migrated(s);
    let sched = add_all_missing(
        created(s.scheduled_transactions, baseline_scheduled()),
        additive_scheduled(),
    );
    assert forall|i: int| 0 <= i < additive_scheduled().len() implies sched.contains(
        #[trigger] additive_scheduled()[i],
    ) by {
        lemma_add_all_missing_contains(
            created(s.scheduled_transactions, baseline_scheduled()),
            additive_scheduled(),
            additive_scheduled()[i],
        );
    }
    lemma_add_all_missing_noop(sched, additive_scheduled());
    let sett = add_all_missing(created(s.settings, baseline_settings()), additive_settings());
    assert forall|i: int| 0 <= i < additive_settings().len() implies sett.contains(
        #[trigger] additive_settings()[i],
    ) by {
        lemma_add_all_missing_contains(
            created(s.settings, baseline_settings()),
            additive_settings(),
            additive_settings()[i],
        );
    }
    lemma_add_all_missing_noop(sett, additive_settings());
}

/// On a freshly-created empty database one run produces the full
/// baseline schema plus every additive column, in probe order.
pub proof fn lemma_migration_fresh()
    ensures
        migrated(SchemaView::init()).accounts == Some(baseline_accounts()),
        migrated(SchemaView::init()).transactions == Some(baseline_transactions()),
        migrated(SchemaView::init()).categories == Some(baseline_categories()),
        migrated(SchemaView::init()).scheduled_transactions == Some(
            baseline_scheduled() + additive_scheduled(),
        ),
        migrated(SchemaView::init()).settings == Some(
            baseline_settings() + seq![
                ColumnName::AccountGroups,
                ColumnName::CustomGroups,
                ColumnName::CustomGroupsOrder,
                ColumnName::AccountsOrder,
                ColumnName::LastSeenVersion,
            ],
        ),
{
    let sched = add_all_missing(baseline_scheduled(), additive_scheduled());
    assert(sched =~= baseline_scheduled() + additive_scheduled()) by {
        reveal_with_fuel(add_all_missing, 4);
        assert(!baseline_scheduled().contains(ColumnName::ToAccountId));
        lemma_push_contains(
            baseline_scheduled(),
            ColumnName::ToAccountId,
            ColumnName::IncludeInForecast,
        );
        assert(!baseline_scheduled().contains(ColumnName::IncludeInForecast));
        let s1 = baseline_scheduled().push(ColumnName::ToAccountId);
        let s2 = s1.push(ColumnName::IncludeInForecast);
        lemma_push_contains(s1, ColumnName::IncludeInForecast, ColumnName::EndDate);
        lemma_push_contains(baseline_scheduled(), ColumnName::ToAccountId, ColumnName::EndDate);
        assert(!baseline_scheduled().contains(ColumnName::EndDate));
    }
    let sett = add_all_missing(baseline_settings(), additive_settings());
    let extra = seq![
        ColumnName::AccountGroups,
        ColumnName::CustomGroups,
        ColumnName::CustomGroupsOrder,
        ColumnName::AccountsOrder,
        ColumnName::LastSeenVersion,
    ];
    assert(sett =~= baseline_settings() + extra) by {
        reveal_with_fuel(add_all_missing, 9);
        assert(baseline_settings().contains(ColumnName::DisplayStyle)) by {
            assert(baseline_settings()[3] == ColumnName::DisplayStyle);
        }
        assert(baseline_settings().contains(ColumnName::ComponentSpacing)) by {
            assert(baseline_settings()[8] == ColumnName::ComponentSpacing);
        }
        assert(baseline_settings().contains(ColumnName::ComponentPadding)) by {
            assert(baseline_settings()[9] == ColumnName::ComponentPadding);
        }
        let b = baseline_settings();
        assert(!b.contains(ColumnName::AccountGroups));
        let t1 = b.push(ColumnName::AccountGroups);
        lemma_push_contains(b, ColumnName::AccountGroups, ColumnName::CustomGroups);
        assert(!b.contains(ColumnName::CustomGroups));
        let t2 = t1.push(ColumnName::CustomGroups);
        lemma_push_contains(t1, ColumnName::CustomGroups, ColumnName::CustomGroupsOrder);
        lemma_push_contains(b, ColumnName::AccountGroups, ColumnName::CustomGroupsOrder);
        assert(!b.contains(ColumnName::CustomGroupsOrder));
        let t3 = t2.push(ColumnName::CustomGroupsOrder);
        lemma_push_contains(t2, ColumnName::CustomGroupsOrder, ColumnName::AccountsOrder);
        lemma_push_contains(t1, ColumnName::CustomGroups, ColumnName::AccountsOrder);
        lemma_push_contains(b, ColumnName::AccountGroups, ColumnName::AccountsOrder);
        assert(!b.contains(ColumnName::AccountsOrder));
        let t4 = t3.push(ColumnName::AccountsOrder);
        lemma_push_contains(t3, ColumnName::AccountsOrder, ColumnName::LastSeenVersion);
        lemma_push_contains(t2, ColumnName::CustomGroupsOrder, ColumnName::LastSeenVersion);
        lemma_push_contains(t1, ColumnName::CustomGroups, ColumnName::LastSeenVersion);
        lemma_push_contains(b, ColumnName::AccountGroups, ColumnName::LastSeenVersion);
        assert(!b.contains(ColumnName::LastSeenVersion));
    }
}

fn col_contains(v: &Vec<ColumnName>, c: ColumnName) -> (r: bool)
    ensures
        r == v@.contains(c),
{
    let mut i: usize = 0;
    while i < v.len()
        invariant
            i <= v@.len(),
            forall|j: int| 0 <= j < i ==> v@[j] != c,
        decreases v@.len() - i,
    {
        if v[i] == c {
            return true;
        }
        i = i + 1;
    }
    false
}

/// The probe-then-alter step on a live table.
fn add_column(v: &mut Vec<ColumnName>, c: ColumnName)
    ensures
        final(v)@ == add_if_missing(old(v)@, c),
{
    if !col_contains(v, c) {
        v.push(c);
    }
}

impl Schema {
    /// The schema of a database file that was just created.
    pub fn new() -> (r: Schema)
        ensures
            r@ == SchemaView::init(),
    {
        Schema {
            accounts: None,
            transactions: None,
            categories: None,
            scheduled_transactions: None,
            settings: None,
        }
    }

    /// One migration run: create every missing table with its baseline
    /// columns, then probe for and add every later column.
    pub fn migrate(&mut self)
        ensures
            final(self)@ == migrated(old(self)@),
    {
        if self.accounts.is_none() {
            let cols = vec![
                ColumnName::Id,
                ColumnName::Name,
                ColumnName::Type,
                ColumnName::InitialBalance,
                ColumnName::Color,
                ColumnName::Icon,
            ];
            proof {
                assert(cols@ =~= baseline_accounts());
            }
            self.accounts = Some(cols);
        }
        if self.transactions.is_none() {
            let cols = vec![
                ColumnName::Id,
                ColumnName::Date,
                ColumnName::AccountId,
                ColumnName::Type,
                ColumnName::Amount,
                ColumnName::Category,
                ColumnName::Description,
                ColumnName::Checked,
                ColumnName::IsTransfer,
                ColumnName::LinkedTransactionId,
            ];
            proof {
                assert(cols@ =~= baseline_transactions());
            }
            self.transactions = Some(cols);
        }
        if self.categories.is_none() {
            let cols = vec![
                ColumnName::Id,
                ColumnName::Name,
                ColumnName::Icon,
                ColumnName::Color,
            ];
            proof {
                assert(cols@ =~= baseline_categories());
            }
            self.categories = Some(cols);
        }
        if self.scheduled_transactions.is_none() {
            let cols = vec![
                ColumnName::Id,
                ColumnName::Description,
                ColumnName::Amount,
                ColumnName::Type,
                ColumnName::Frequency,
                ColumnName::AccountId,
                ColumnName::NextDate,
                ColumnName::Category,
            ];
            proof {
                assert(cols@ =~= baseline_scheduled());
            }
            self.scheduled_transactions = Some(cols);
        }
        if self.settings.is_none() {
            let cols = vec![
                ColumnName::Id,
                ColumnName::Theme,
                ColumnName::PrimaryColor,
                ColumnName::DisplayStyle,
                ColumnName::WindowPositionX,
                ColumnName::WindowPositionY,
                ColumnName::WindowSizeWidth,
                ColumnName::WindowSizeHeight,
                ColumnName::ComponentSpacing,
                ColumnName::ComponentPadding,
            ];
            proof {
                assert(cols@ =~= baseline_settings());
            }
            self.settings = Some(cols);
        }
        match &mut self.settings {
            Some(cols) => {
                add_column(cols, ColumnName::DisplayStyle);
                add_column(cols, ColumnName::ComponentSpacing);
                add_column(cols, ColumnName::ComponentPadding);
                add_column(cols, ColumnName::AccountGroups);
                add_column(cols, ColumnName::CustomGroups);
                add_column(cols, ColumnName::CustomGroupsOrder);
                add_column(cols, ColumnName::AccountsOrder);
            },
            None => {},
        }
        match &mut self.scheduled_transactions {
            Some(cols) => {
                add_column(cols, ColumnName::ToAccountId);
                add_column(cols, ColumnName::IncludeInForecast);
                add_column(cols, ColumnName::EndDate);
            },
            None => {},
        }
        match &mut self.settings {
            Some(cols) => {
                add_column(cols, ColumnName::LastSeenVersion);
            },
            None => {},
        }
        proof {
            reveal_with_fuel(add_all_missing, 9);
        }
    }
}

} // verus!
