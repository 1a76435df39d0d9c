//! The record store: the five tables and the operations on them.
//!
//! A `Store` value stands for the whole database: four entity tables,
//! the singleton settings row, and the live schema.  Every operation is
//! specified against the exact table contents it leaves behind; the
//! multi-statement operations (cascading account deletion, bulk import,
//! schema migration) additionally guarantee that a storage fault
//! reported anywhere inside them leaves the store exactly as it was —
//! the transaction commits nothing.
//!
//! A storage fault is an outside event (disk, connectivity); each
//! operation takes it as the `engine_fault` argument and states what
//! holds in either case.

use vstd::prelude::*;
use crate::errors::StoreError;
use crate::models::Account;
use crate::models::AppData;
use crate::models::Category;
use crate::models::ScheduledTransaction;
use crate::models::Settings;
use crate::models::SettingsRow;
use crate::models::Transaction;
use crate::models::settings_from_row;
use crate::models::settings_to_row;
use crate::models::spec_row_of_settings;
use crate::models::spec_settings_of_row;
use crate::schema::Schema;
use crate::schema::SchemaView;
use crate::schema::migrated;
use crate::tables::AccountLinked;
use crate::tables::TableRow;
use crate::tables::contains_id;
use crate::tables::dup_rows;
use crate::tables::filter_out_account;
use crate::tables::filter_out_id;
use crate::tables::has_id;
use crate::tables::keeps_account;
use crate::tables::keeps_id;
use crate::tables::lemma_filter_subset;
use crate::tables::lemma_unique_filter;
use crate::tables::lemma_unique_push;
use crate::tables::lemma_update_keeps_ids;
use crate::tables::spec_delete_by_account;
use crate::tables::spec_delete_by_id;
use crate::tables::spec_insert_or_ignore;
use crate::tables::spec_update_by_id;
use crate::tables::unique_ids;
use crate::tables::update_rows;
use crate::text::lex_le;
use crate::text::lex_le_str;
use crate::text::lemma_lex_le_antisym;
use crate::text::lemma_lex_le_total;
use crate::text::lemma_lex_le_trans;

verus! {

/// Transactions are listed with dates in non-increasing order.
pub open spec fn sorted_by_date_desc(s: Seq<Transaction>) -> bool {
    forall|i: int, j: int|
        #![trigger s[i], s[j]]
        0 <= i <= j < s.len() ==> lex_le(s[j].date@, s[i].date@)
}

/// Row `j` repeats a key that an earlier row of the same batch carries.
pub open spec fn dup_key_before<T: TableRow>(s: Seq<T>, j: int) -> bool {
    exists|k: int| 0 <= k < j && #[trigger] s[k].row_id() == s[j].row_id()
}

/// The first failure a strict insert of rows `j..` would hit, when the
/// table was empty before the batch and the rows have no foreign key.
pub open spec fn first_unique_error<T: TableRow>(s: Seq<T>, j: int) -> Option<StoreError>
    decreases s.len() - j,
{
    if j >= s.len() {
        None
    } else if dup_key_before(s, j) {
        Some(StoreError::Unique)
    } else {
        first_unique_error(s, j + 1)
    }
}

/// The first failure a strict insert of rows `j..` would hit for a
/// table whose rows must reference one of `accounts`.
pub open spec fn first_child_error<T: TableRow + AccountLinked>(
    s: Seq<T>,
    j: int,
    accounts: Seq<Account>,
) -> Option<StoreError>
    decreases s.len() - j,
{
    if j >= s.len() {
        None
    } else if dup_key_before(s, j) {
        Some(StoreError::Unique)
    } else if !has_id(accounts, s[j].linked_account()) {
        Some(StoreError::ForeignKey)
    } else {
        first_child_error(s, j + 1, accounts)
    }
}

/// The first failure bulk import hits, walking the snapshot in insert
/// order: accounts, categories, transactions, scheduled transactions.
pub open spec fn spec_import_error(
    accounts: Seq<Account>,
    categories: Seq<Category>,
    transactions: Seq<Transaction>,
    scheduled: Seq<ScheduledTransaction>,
) -> Option<StoreError> {
    if first_unique_error(accounts, 0) is Some {
        first_unique_error(accounts, 0)
    } else if first_unique_error(categories, 0) is Some {
        first_unique_error(categories, 0)
    } else if first_child_error(transactions, 0, accounts) is Some {
        first_child_error(transactions, 0, accounts)
    } else {
        first_child_error(scheduled, 0, accounts)
    }
}

proof fn lemma_walk_unique<T: TableRow>(s: Seq<T>, j: int)
    requires
        0 <= j <= s.len(),
        first_unique_error(s, j) == None::<StoreError>,
    ensures
        forall|t: int| j <= t < s.len() ==> !dup_key_before(s, t),
    decreases s.len() - j,
{
    if j < s.len() {
        lemma_walk_unique(s, j + 1);
    }
}

proof fn lemma_walk_child<T: TableRow + AccountLinked>(s: Seq<T>, j: int, accounts: Seq<Account>)
    requires
        0 <= j <= s.len(),
        first_child_error(s, j, accounts) == None::<StoreError>,
    ensures
        forall|t: int| j <= t < s.len() ==> !dup_key_before(s, t),
        forall|t: int| j <= t < s.len() ==> has_id(accounts, #[trigger] s[t].linked_account()),
    decreases s.len() - j,
{
    if j < s.len() {
        lemma_walk_child(s, j + 1, accounts);
    }
}

proof fn lemma_no_dups_unique<T: TableRow>(s: Seq<T>)
    requires
        forall|t: int| 0 <= t < s.len() ==> !dup_key_before(s, t),
    ensures
        unique_ids(s),
{
    assert forall|i: int, j: int|
        0 <= i < j < s.len() implies #[trigger] s[i].row_id() != #[trigger] s[j].row_id() by {
        if s[i].row_id() == s[j].row_id() {
            assert(dup_key_before(s, j));
        }
    }
}

fn has_dup_before<T: TableRow>(v: &Vec<T>, j: usize) -> (r: bool)
    requires
        j < v@.len(),
    ensures
        r == dup_key_before(v@, j as int),
{
    let mut k: usize = 0;
    while k < j
        invariant
            k <= j < v@.len(),
            forall|t: int| 0 <= t < k ==> #[trigger] v@[t].row_id() != v@[j as int].row_id(),
        decreases j - k,
    {
        if crate::tables::string_eq(v[k].row_id_ref(), v[j].row_id_ref()) {
            return true;
        }
        k = k + 1;
    }
    false
}

fn first_unique_err_exec<T: TableRow>(v: &Vec<T>) -> (r: Option<StoreError>)
    ensures
        r == first_unique_error(v@, 0),
{
    let mut j: usize = 0;
    while j < v.len()
        invariant
            j <= v@.len(),
            first_unique_error(v@, 0) == first_unique_error(v@, j as int),
        decreases v@.len() - j,
    {
        if has_dup_before(v, j) {
            return Some(StoreError::Unique);
        }
        j = j + 1;
    }
    None
}

fn first_child_err_exec<T: TableRow + AccountLinked>(v: &Vec<T>, accounts: &Vec<Account>) -> (r:
    Option<StoreError>)
    ensures
        r == first_child_error(v@, 0, accounts@),
{
    let mut j: usize = 0;
    while j < v.len()
        invariant
            j <= v@.len(),
            first_child_error(v@, 0, accounts@) == first_child_error(v@, j as int, accounts@),
        decreases v@.len() - j,
    {
        if has_dup_before(v, j) {
            return Some(StoreError::Unique);
        }
        if !contains_id(accounts, v[j].linked_account_ref()) {
            return Some(StoreError::ForeignKey);
        }
        j = j + 1;
    }
    None
}

/// Sorts by date, most recent first.  Rows with equal dates may come
/// out in any order, as with the storage engine's own ordering.
fn sort_transactions_desc(src: Vec<Transaction>) -> (out: Vec<Transaction>)
    ensures
        out@.to_multiset() == src@.to_multiset(),
        sorted_by_date_desc(out@),
{
    broadcast use vstd::seq_lib::group_to_multiset_ensures;
    broadcast use vstd::multiset::group_multiset_axioms;

    let mut rest = src;
    let mut out: Vec<Transaction> = Vec::new();
    proof {
        assert(out@.to_multiset().add(rest@.to_multiset()) =~= src@.to_multiset());
    }
    while rest.len() > 0
        invariant
            out@.to_multiset().add(rest@.to_multiset()) == src@.to_multiset(),
            sorted_by_date_desc(out@),
            forall|i: int, j: int|
                #![trigger out@[i], rest@[j]]
                0 <= i < out@.len() && 0 <= j < rest@.len() ==> lex_le(
                    rest@[j].date@,
                    out@[i].date@,
                ),
        decreases rest@.len(),
    {
        let mut best: usize = 0;
        let mut k: usize = 1;
        proof {
            lemma_lex_le_total(rest@[0].date@, rest@[0].date@);
        }
        while k < rest.len()
            invariant
                0 < rest@.len(),
                best < k <= rest@.len(),
                forall|t: int| 0 <= t < k ==> lex_le(#[trigger] rest@[t].date@, rest@[best as int].date@),
            decreases rest@.len() - k,
        {
            if lex_le_str(rest[best].date.as_str(), rest[k].date.as_str()) {
                proof {
                    lemma_lex_le_total(rest@[k as int].date@, rest@[k as int].date@);
                    assert forall|t: int| 0 <= t < k + 1 implies lex_le(
                        #[trigger] rest@[t].date@,
                        rest@[k as int].date@,
                    ) by {
                        if t < k {
                            lemma_lex_le_trans(
                                rest@[t].date@,
                                rest@[best as int].date@,
                                rest@[k as int].date@,
                            );
                        }
                    }
                }
                best = k;
            } else {
                proof {
                    lemma_lex_le_total(rest@[best as int].date@, rest@[k as int].date@);
                }
            }
            k = k + 1;
        }
        proof {
            lemma_lex_le_total(rest@[best as int].date@, rest@[best as int].date@);
        }
        let ghost pre_rest = rest@;
        let ghost pre_out = out@;
        let x = rest.remove(best);
        out.push(x);
        proof {
            pre_rest.to_multiset_ensures();
            pre_out.to_multiset_ensures();
            assert(pre_rest.contains(x)) by {
                assert(pre_rest[best as int] == x);
            }
            assert(pre_rest.to_multiset().count(x) > 0);
            assert(out@.to_multiset() =~= pre_out.to_multiset().insert(x));
            assert(rest@.to_multiset() =~= pre_rest.to_multiset().remove(x));
            assert(out@.to_multiset().add(rest@.to_multiset()) =~= pre_out.to_multiset().add(
                pre_rest.to_multiset(),
            ));
            assert forall|i: int, j: int|
                #![trigger out@[i], rest@[j]]
                0 <= i < out@.len() && 0 <= j < rest@.len() implies lex_le(
                rest@[j].date@,
                out@[i].date@,
            ) by {
                assert(rest@[j] == if j < best { pre_rest[j] } else { pre_rest[j + 1] });
                if j < best {
                    assert(lex_le(pre_rest[j].date@, pre_rest[best as int].date@));
                } else {
                    assert(lex_le(pre_rest[j + 1].date@, pre_rest[best as int].date@));
                }
                if i < pre_out.len() {
                    if j < best {
                        assert(lex_le(pre_rest[j].date@, pre_out[i].date@));
                    } else {
                        assert(lex_le(pre_rest[j + 1].date@, pre_out[i].date@));
                    }
                } else {
                    assert(out@[i] == x);
                    assert(lex_le(rest@[j].date@, x.date@));
                }
            }
            assert forall|i: int, j: int|
                #![trigger out@[i], out@[j]]
                0 <= i <= j < out@.len() implies lex_le(out@[j].date@, out@[i].date@) by {
                if j == out@.len() - 1 {
                    if i < j {
                        assert(out@[i] == pre_out[i]);
                        assert(lex_le(pre_rest[best as int].date@, pre_out[i].date@));
                    }
                } else {
                    assert(out@[i] == pre_out[i] && out@[j] == pre_out[j]);
                }
            }
        }
    }
    proof {
        rest@.to_multiset_ensures();
        assert(rest@.to_multiset().len() == 0);
        assert(out@.to_multiset().add(rest@.to_multiset()) =~= out@.to_multiset());
    }
    out
}

/// For three transactions with strictly increasing dates, the listing
/// order is exactly newest to oldest, wherever they sat in storage.
pub proof fn lemma_three_dates_order(
    v: Seq<Transaction>,
    t1: Transaction,
    t2: Transaction,
    t3: Transaction,
)
    requires
        v.to_multiset() == seq![t1, t2, t3].to_multiset(),
        sorted_by_date_desc(v),
        crate::text::lex_lt(t1.date@, t2.date@),
        crate::text::lex_lt(t2.date@, t3.date@),
    ensures
        v == seq![t3, t2, t1],
{
    broadcast use vstd::seq_lib::group_to_multiset_ensures;
    broadcast use vstd::multiset::group_multiset_axioms;

    let s = seq![t1, t2, t3];
    v.to_multiset_ensures();
    s.to_multiset_ensures();
    assert(v.len() == 3) by {
        assert(v.to_multiset().len() == s.to_multiset().len());
    }
    assert(s.contains(t1)) by {
        assert(s[0] == t1);
    }
    assert(s.contains(t2)) by {
        assert(s[1] == t2);
    }
    assert(s.contains(t3)) by {
        assert(s[2] == t3);
    }
    assert(s.to_multiset().count(t1) > 0);
    assert(s.to_multiset().count(t2) > 0);
    assert(s.to_multiset().count(t3) > 0);
    assert(v.to_multiset().count(t1) > 0);
    assert(v.to_multiset().count(t2) > 0);
    assert(v.to_multiset().count(t3) > 0);
    assert(v.contains(t1) && v.contains(t2) && v.contains(t3));
    let i1 = choose|i: int| 0 <= i < v.len() && v[i] == t1;
    let i2 = choose|i: int| 0 <= i < v.len() && v[i] == t2;
    let i3 = choose|i: int| 0 <= i < v.len() && v[i] == t3;
    assert(t1 != t2 && t2 != t3 && t1 != t3) by {
        if t1.date@ == t3.date@ {
            lemma_lex_le_antisym(t1.date@, t2.date@);
        }
    }
    assert(i2 < i1) by {
        if i1 <= i2 {
            assert(lex_le(v[i2].date@, v[i1].date@));
            lemma_lex_le_antisym(t1.date@, t2.date@);
        }
    }
    assert(i3 < i2) by {
        if i2 <= i3 {
            assert(lex_le(v[i3].date@, v[i2].date@));
            lemma_lex_le_antisym(t2.date@, t3.date@);
        }
    }
    assert(i3 == 0 && i2 == 1 && i1 == 2);
    assert(v =~= seq![t3, t2, t1]);
}

/// The whole database.
pub struct Store {
    pub schema: Schema,
    pub accounts: Vec<Account>,
    pub transactions: Vec<Transaction>,
    pub categories: Vec<Category>,
    pub scheduled: Vec<ScheduledTransaction>,
    pub settings: Option<SettingsRow>,
}

impl Store {
    /// What the storage engine's constraints guarantee of every
    /// committed state: primary keys are unique in each table, and
    /// every transaction and scheduled transaction references an
    /// existing account.  (`to_account_id` is advisory and carries no
    /// such guarantee.)
    pub open spec fn inv(self) -> bool {
        &&& unique_ids(self.accounts@)
        &&& unique_ids(self.transactions@)
        &&& unique_ids(self.categories@)
        &&& unique_ids(self.scheduled@)
        &&& forall|i: int|
            0 <= i < self.transactions@.len() ==> has_id(
                self.accounts@,
                #[trigger] self.transactions@[i].linked_account(),
            )
        &&& forall|i: int|
            0 <= i < self.scheduled@.len() ==> has_id(
                self.accounts@,
                #[trigger] self.scheduled@[i].linked_account(),
            )
    }

    /// An empty store over a freshly-created database file.
    pub fn new() -> (r: Store)
        ensures
            r.schema@ == SchemaView::init(),
            r.accounts@ == Seq::<Account>::empty(),
            r.transactions@ == Seq::<Transaction>::empty(),
            r.categories@ == Seq::<Category>::empty(),
            r.scheduled@ == Seq::<ScheduledTransaction>::empty(),
            r.settings == None::<SettingsRow>,
            r.inv(),
    {
        let r = Store {
            schema: Schema::new(),
            accounts: Vec::new(),
            transactions: Vec::new(),
            categories: Vec::new(),
            scheduled: Vec::new(),
            settings: None,
        };
        r
    }

    /// Startup migration: creates every missing table and adds every
    /// missing column, inside one transaction, touching no row.  On a
    /// fault nothing is committed; the caller must then fail fast.
    pub fn create_tables(&mut self, engine_fault: bool) -> (r: Result<(), StoreError>)
        ensures
            engine_fault ==> r == Err::<(), StoreError>(StoreError::Storage) && *final(self)
                == *old(self),
            !engine_fault ==> r == Ok::<(), StoreError>(()),
            !engine_fault ==> final(self).schema@ == migrated(old(self).schema@),
            final(self).accounts == old(self).accounts,
            final(self).transactions == old(self).transactions,
            final(self).categories == old(self).categories,
            final(self).scheduled == old(self).scheduled,
            final(self).settings == old(self).settings,
            old(self).inv() ==> final(self).inv(),
    {
        if engine_fault {
            return Err(StoreError::Storage);
        }
        self.schema.migrate();
        Ok(())
    }

    /// All accounts, in storage order.
    pub fn get_accounts(&self, engine_fault: bool) -> (r: Result<Vec<Account>, StoreError>)
        ensures
            engine_fault ==> r == Err::<Vec<Account>, StoreError>(StoreError::Storage),
            !engine_fault ==> (r matches Ok(v) && v@ == self.accounts@),
    {
        if engine_fault {
            return Err(StoreError::Storage);
        }
        Ok(dup_rows(&self.accounts))
    }

    /// Insert-or-ignore: a duplicate account id is silently a no-op, so
    /// a retried create never fails.
    pub fn add_account(&mut self, account: Account, engine_fault: bool) -> (r: Result<
        (),
        StoreError,
    >)
        ensures
            engine_fault ==> r == Err::<(), StoreError>(StoreError::Storage) && *final(self)
                == *old(self),
            !engine_fault ==> r == Ok::<(), StoreError>(()),
            !engine_fault ==> final(self).accounts@ == spec_insert_or_ignore(
                old(self).accounts@,
                account,
            ),
            final(self).transactions == old(self).transactions,
            final(self).categories == old(self).categories,
            final(self).scheduled == old(self).scheduled,
            final(self).settings == old(self).settings,
            final(self).schema == old(self).schema,
            old(self).inv() ==> final(self).inv(),
    {
        if engine_fault {
            return Err(StoreError::Storage);
        }
        if !contains_id(&self.accounts, &account.id) {
            proof {
                if old(self).inv() {
                    lemma_unique_push(self.accounts@, account);
                    crate::tables::lemma_has_id_push(
                        self.accounts@,
                        account,
                        account.row_id(),
                    );
                }
            }
            let ghost pre = self.accounts@;
            self.accounts.push(account);
            proof {
                if old(self).inv() {
                    assert forall|i: int| 0 <= i < self.transactions@.len() implies has_id(
                        self.accounts@,
                        #[trigger] self.transactions@[i].linked_account(),
                    ) by {
                        crate::tables::lemma_has_id_push(
                            pre,
                            self.accounts@[pre.len() as int],
                            self.transactions@[i].linked_account(),
                        );
                    }
                    assert forall|i: int| 0 <= i < self.scheduled@.len() implies has_id(
                        self.accounts@,
                        #[trigger] self.scheduled@[i].linked_account(),
                    ) by {
                        crate::tables::lemma_has_id_push(
                            pre,
                            self.accounts@[pre.len() as int],
                            self.scheduled@[i].linked_account(),
                        );
                    }
                }
            }
        }
        Ok(())
    }

    /// Full-row update keyed by the account's id; an id that matches no
    /// row succeeds and changes nothing.
    pub fn update_account(&mut self, account: Account, engine_fault: bool) -> (r: Result<
        (),
        StoreError,
    >)
        ensures
            engine_fault ==> r == Err::<(), StoreError>(StoreError::Storage) && *final(self)
                == *old(self),
            !engine_fault ==> r == Ok::<(), StoreError>(()),
            !engine_fault ==> final(self).accounts@ == spec_update_by_id(
                old(self).accounts@,
                account,
            ),
            final(self).transactions == old(self).transactions,
            final(self).categories == old(self).categories,
            final(self).scheduled == old(self).scheduled,
            final(self).settings == old(self).settings,
            final(self).schema == old(self).schema,
            old(self).inv() ==> final(self).inv(),
    {
        if engine_fault {
            return Err(StoreError::Storage);
        }
        let ghost pre = self.accounts@;
        update_rows(&mut self.accounts, &account);
        proof {
            lemma_update_keeps_ids(pre, account);
        }
        Ok(())
    }

    /// All categories, in storage order.
    pub fn get_categories(&self, engine_fault: bool) -> (r: Result<Vec<Category>, StoreError>)
        ensures
            engine_fault ==> r == Err::<Vec<Category>, StoreError>(StoreError::Storage),
            !engine_fault ==> (r matches Ok(v) && v@ == self.categories@),
    {
        if engine_fault {
            return Err(StoreError::Storage);
        }
        Ok(dup_rows(&self.categories))
    }

    /// Insert-or-ignore, as for accounts.
    pub fn add_category(&mut self, category: Category, engine_fault: bool) -> (r: Result<
        (),
        StoreError,
    >)
        ensures
            engine_fault ==> r == Err::<(), StoreError>(StoreError::Storage) && *final(self)
                == *old(self),
            !engine_fault ==> r == Ok::<(), StoreError>(()),
            !engine_fault ==> final(self).categories@ == spec_insert_or_ignore(
                old(self).categories@,
                category,
            ),
            final(self).accounts == old(self).accounts,
            final(self).transactions == old(self).transactions,
            final(self).scheduled == old(self).scheduled,
            final(self).settings == old(self).settings,
            final(self).schema == old(self).schema,
            old(self).inv() ==> final(self).inv(),
    {
        if engine_fault {
            return Err(StoreError::Storage);
        }
        if !contains_id(&self.categories, &category.id) {
            proof {
                if old(self).inv() {
                    lemma_unique_push(self.categories@, category);
                }
            }
            self.categories.push(category);
        }
        Ok(())
    }

    /// Full-row update keyed by the category's id; a missing id is a
    /// silent no-op.
    pub fn update_category(&mut self, category: Category, engine_fault: bool) -> (r: Result<
        (),
        StoreError,
    >)
        ensures
            engine_fault ==> r == Err::<(), StoreError>(StoreError::Storage) && *final(self)
                == *old(self),
            !engine_fault ==> r == Ok::<(), StoreError>(()),
            !engine_fault ==> final(self).categories@ == spec_update_by_id(
                old(self).categories@,
                category,
            ),
            final(self).accounts == old(self).accounts,
            final(self).transactions == old(self).transactions,
            final(self).scheduled == old(self).scheduled,
            final(self).settings == old(self).settings,
            final(self).schema == old(self).schema,
            old(self).inv() ==> final(self).inv(),
    {
        if engine_fault {
            return Err(StoreError::Storage);
        }
        let ghost pre = self.categories@;
        update_rows(&mut self.categories, &category);
        proof {
            lemma_update_keeps_ids(pre, category);
        }
        Ok(())
    }

    /// Deletes the category with that id; a missing id is a silent
    /// no-op.
    pub fn delete_category(&mut self, id: &String, engine_fault: bool) -> (r: Result<
        (),
        StoreError,
    >)
        ensures
            engine_fault ==> r == Err::<(), StoreError>(StoreError::Storage) && *final(self)
                == *old(self),
            !engine_fault ==> r == Ok::<(), StoreError>(()),
            !engine_fault ==> final(self).categories@ == spec_delete_by_id(
                old(self).categories@,
                id@,
            ),
            final(self).accounts == old(self).accounts,
            final(self).transactions == old(self).transactions,
            final(self).scheduled == old(self).scheduled,
            final(self).settings == old(self).settings,
            final(self).schema == old(self).schema,
            old(self).inv() ==> final(self).inv(),
    {
        if engine_fault {
            return Err(StoreError::Storage);
        }
        let ghost pre = self.categories@;
        let kept = filter_out_id(&self.categories, id);
        self.categories = kept;
        proof {
            if old(self).inv() {
                lemma_unique_filter(pre, keeps_id::<Category>(id@));
            }
        }
        Ok(())
    }

    /// Deletes the transaction with that id; a missing id is a silent
    /// no-op.
    pub fn delete_transaction(&mut self, id: &String, engine_fault: bool) -> (r: Result<
        (),
        StoreError,
    >)
        ensures
            engine_fault ==> r == Err::<(), StoreError>(StoreError::Storage) && *final(self)
                == *old(self),
            !engine_fault ==> r == Ok::<(), StoreError>(()),
            !engine_fault ==> final(self).transactions@ == spec_delete_by_id(
                old(self).transactions@,
                id@,
            ),
            final(self).accounts == old(self).accounts,
            final(self).categories == old(self).categories,
            final(self).scheduled == old(self).scheduled,
            final(self).settings == old(self).settings,
            final(self).schema == old(self).schema,
            old(self).inv() ==> final(self).inv(),
    {
        if engine_fault {
            return Err(StoreError::Storage);
        }
        let ghost pre = self.transactions@;
        let kept = filter_out_id(&self.transactions, id);
        self.transactions = kept;
        proof {
            if old(self).inv() {
                lemma_unique_filter(pre, keeps_id::<Transaction>(id@));
                lemma_filter_subset(pre, keeps_id::<Transaction>(id@));
                assert forall|i: int| 0 <= i < self.transactions@.len() implies has_id(
                    self.accounts@,
                    #[trigger] self.transactions@[i].linked_account(),
                ) by {
                    assert(pre.contains(self.transactions@[i]));
                    let k = choose|k: int| 0 <= k < pre.len() && pre[k] == self.transactions@[i];
                    assert(has_id(self.accounts@, pre[k].linked_account()));
                }
            }
        }
        Ok(())
    }

    /// Deletes the scheduled transaction with that id; a missing id is
    /// a silent no-op.
    pub fn delete_scheduled(&mut self, id: &String, engine_fault: bool) -> (r: Result<
        (),
        StoreError,
    >)
        ensures
            engine_fault ==> r == Err::<(), StoreError>(StoreError::Storage) && *final(self)
                == *old(self),
            !engine_fault ==> r == Ok::<(), StoreError>(()),
            !engine_fault ==> final(self).scheduled@ == spec_delete_by_id(
                old(self).scheduled@,
                id@,
            ),
            final(self).accounts == old(self).accounts,
            final(self).transactions == old(self).transactions,
            final(self).categories == old(self).categories,
            final(self).settings == old(self).settings,
            final(self).schema == old(self).schema,
            old(self).inv() ==> final(self).inv(),
    {
        if engine_fault {
            return Err(StoreError::Storage);
        }
        let ghost pre = self.scheduled@;
        let kept = filter_out_id(&self.scheduled, id);
        self.scheduled = kept;
        proof {
            if old(self).inv() {
                lemma_unique_filter(pre, keeps_id::<ScheduledTransaction>(id@));
                lemma_filter_subset(pre, keeps_id::<ScheduledTransaction>(id@));
                assert forall|i: int| 0 <= i < self.scheduled@.len() implies has_id(
                    self.accounts@,
                    #[trigger] self.scheduled@[i].linked_account(),
                ) by {
                    assert(pre.contains(self.scheduled@[i]));
                    let k = choose|k: int| 0 <= k < pre.len() && pre[k] == self.scheduled@[i];
                    assert(has_id(self.accounts@, pre[k].linked_account()));
                }
            }
        }
        Ok(())
    }

    /// The settings, or `None` when they were never saved.  A window
    /// position or size is reported only when both components are
    /// stored.
    pub fn get_settings(&self, engine_fault: bool) -> (r: Result<Option<Settings>, StoreError>)
        ensures
            engine_fault ==> r == Err::<Option<Settings>, StoreError>(StoreError::Storage),
            !engine_fault ==> match self.settings {
                Some(row) => r == Ok::<Option<Settings>, StoreError>(
                    Some(spec_settings_of_row(row)),
                ),
                None => r == Ok::<Option<Settings>, StoreError>(None),
            },
    {
        if engine_fault {
            return Err(StoreError::Storage);
        }
        match &self.settings {
            Some(row) => Ok(Some(settings_from_row(row.clone()))),
            None => Ok(None),
        }
    }

    /// Upsert into the singleton settings row: insert when it was never
    /// written, else overwrite every column, as one statement.
    pub fn save_settings(&mut self, settings: Settings, engine_fault: bool) -> (r: Result<
        (),
        StoreError,
    >)
        ensures
            engine_fault ==> r == Err::<(), StoreError>(StoreError::Storage) && *final(self)
                == *old(self),
            !engine_fault ==> r == Ok::<(), StoreError>(()),
            !engine_fault ==> final(self).settings == Some(spec_row_of_settings(settings)),
            final(self).accounts == old(self).accounts,
            final(self).transactions == old(self).transactions,
            final(self).categories == old(self).categories,
            final(self).scheduled == old(self).scheduled,
            final(self).schema == old(self).schema,
            old(self).inv() ==> final(self).inv(),
    {
        if engine_fault {
            return Err(StoreError::Storage);
        }
        self.settings = Some(settings_to_row(settings));
        Ok(())
    }

    /// All transactions, ordered by date descending.  Equal dates may
    /// come out in any order.
    pub fn get_transactions(&self, engine_fault: bool) -> (r: Result<Vec<Transaction>, StoreError>)
        ensures
            engine_fault ==> r == Err::<Vec<Transaction>, StoreError>(StoreError::Storage),
            !engine_fault ==> (r matches Ok(v) && v@.to_multiset() == self.transactions@.to_multiset()
                && sorted_by_date_desc(v@)),
    {
        if engine_fault {
            return Err(StoreError::Storage);
        }
        let copy = dup_rows(&self.transactions);
        Ok(sort_transactions_desc(copy))
    }

    /// Strict insert: a duplicate transaction id is a uniqueness
    /// violation, a reference to a missing account a foreign-key
    /// violation; either leaves the store unchanged.
    pub fn add_transaction(&mut self, transaction: Transaction, engine_fault: bool) -> (r: Result<
        (),
        StoreError,
    >)
        ensures
            engine_fault ==> r == Err::<(), StoreError>(StoreError::Storage) && *final(self)
                == *old(self),
            !engine_fault && has_id(old(self).transactions@, transaction.row_id()) ==> r
                == Err::<(), StoreError>(StoreError::Unique) && *final(self) == *old(self),
            !engine_fault && !has_id(old(self).transactions@, transaction.row_id()) && !has_id(
                old(self).accounts@,
                transaction.linked_account(),
            ) ==> r == Err::<(), StoreError>(StoreError::ForeignKey) && *final(self) == *old(self),
            !engine_fault && !has_id(old(self).transactions@, transaction.row_id()) && has_id(
                old(self).accounts@,
                transaction.linked_account(),
            ) ==> r == Ok::<(), StoreError>(()) && final(self).transactions@ == old(
                self,
            ).transactions@.push(transaction),
            final(self).accounts == old(self).accounts,
            final(self).categories == old(self).categories,
            final(self).scheduled == old(self).scheduled,
            final(self).settings == old(self).settings,
            final(self).schema == old(self).schema,
            old(self).inv() ==> final(self).inv(),
    {
        if engine_fault {
            return Err(StoreError::Storage);
        }
        if contains_id(&self.transactions, &transaction.id) {
            return Err(StoreError::Unique);
        }
        if !contains_id(&self.accounts, &transaction.account_id) {
            return Err(StoreError::ForeignKey);
        }
        proof {
            if old(self).inv() {
                lemma_unique_push(self.transactions@, transaction);
            }
        }
        let ghost pre = self.transactions@;
        self.transactions.push(transaction);
        proof {
            if old(self).inv() {
                assert forall|i: int| 0 <= i < self.transactions@.len() implies has_id(
                    self.accounts@,
                    #[trigger] self.transactions@[i].linked_account(),
                ) by {
                    if i < pre.len() {
                        assert(self.transactions@[i] == pre[i]);
                    }
                }
            }
        }
        Ok(())
    }

    /// Full-row update keyed by the transaction's id.  A missing id
    /// succeeds and changes nothing; a matched row may not be pointed
    /// at a missing account.
    pub fn update_transaction(&mut self, transaction: Transaction, engine_fault: bool) -> (r:
        Result<(), StoreError>)
        ensures
            engine_fault ==> r == Err::<(), StoreError>(StoreError::Storage) && *final(self)
                == *old(self),
            !engine_fault && !has_id(old(self).transactions@, transaction.row_id()) ==> r
                == Ok::<(), StoreError>(()) && *final(self) == *old(self),
            !engine_fault && has_id(old(self).transactions@, transaction.row_id()) && !has_id(
                old(self).accounts@,
                transaction.linked_account(),
            ) ==> r == Err::<(), StoreError>(StoreError::ForeignKey) && *final(self) == *old(self),
            !engine_fault && has_id(old(self).transactions@, transaction.row_id()) && has_id(
                old(self).accounts@,
                transaction.linked_account(),
            ) ==> r == Ok::<(), StoreError>(()) && final(self).transactions@ == spec_update_by_id(
                old(self).transactions@,
                transaction,
            ),
            final(self).accounts == old(self).accounts,
            final(self).categories == old(self).categories,
            final(self).scheduled == old(self).scheduled,
            final(self).settings == old(self).settings,
            final(self).schema == old(self).schema,
            old(self).inv() ==> final(self).inv(),
    {
        if engine_fault {
            return Err(StoreError::Storage);
        }
        if !contains_id(&self.transactions, &transaction.id) {
            return Ok(());
        }
        if !contains_id(&self.accounts, &transaction.account_id) {
            return Err(StoreError::ForeignKey);
        }
        let ghost pre = self.transactions@;
        update_rows(&mut self.transactions, &transaction);
        proof {
            lemma_update_keeps_ids(pre, transaction);
            if old(self).inv() {
                assert forall|i: int| 0 <= i < self.transactions@.len() implies has_id(
                    self.accounts@,
                    #[trigger] self.transactions@[i].linked_account(),
                ) by {
                    if self.transactions@[i] == transaction {
                    } else {
                        assert(self.transactions@[i] == pre[i]);
                    }
                }
            }
        }
        Ok(())
    }

    /// All scheduled transactions, in storage order.
    pub fn get_scheduled(&self, engine_fault: bool) -> (r: Result<
        Vec<ScheduledTransaction>,
        StoreError,
    >)
        ensures
            engine_fault ==> r == Err::<Vec<ScheduledTransaction>, StoreError>(StoreError::Storage),
            !engine_fault ==> (r matches Ok(v) && v@ == self.scheduled@),
    {
        if engine_fault {
            return Err(StoreError::Storage);
        }
        Ok(dup_rows(&self.scheduled))
    }

    /// Strict insert, as for transactions.  Only `account_id` is
    /// checked against the accounts; `to_account_id` is advisory.
    pub fn add_scheduled(&mut self, scheduled: ScheduledTransaction, engine_fault: bool) -> (r:
        Result<(), StoreError>)
        ensures
            engine_fault ==> r == Err::<(), StoreError>(StoreError::Storage) && *final(self)
                == *old(self),
            !engine_fault && has_id(old(self).scheduled@, scheduled.row_id()) ==> r
                == Err::<(), StoreError>(StoreError::Unique) && *final(self) == *old(self),
            !engine_fault && !has_id(old(self).scheduled@, scheduled.row_id()) && !has_id(
                old(self).accounts@,
                scheduled.linked_account(),
            ) ==> r == Err::<(), StoreError>(StoreError::ForeignKey) && *final(self) == *old(self),
            !engine_fault && !has_id(old(self).scheduled@, scheduled.row_id()) && has_id(
                old(self).accounts@,
                scheduled.linked_account(),
            ) ==> r == Ok::<(), StoreError>(()) && final(self).scheduled@ == old(
                self,
            ).scheduled@.push(scheduled),
            final(self).accounts == old(self).accounts,
            final(self).transactions == old(self).transactions,
            final(self).categories == old(self).categories,
            final(self).settings == old(self).settings,
            final(self).schema == old(self).schema,
            old(self).inv() ==> final(self).inv(),
    {
        if engine_fault {
            return Err(StoreError::Storage);
        }
        if contains_id(&self.scheduled, &scheduled.id) {
            return Err(StoreError::Unique);
        }
        if !contains_id(&self.accounts, &scheduled.account_id) {
            return Err(StoreError::ForeignKey);
        }
        proof {
            if old(self).inv() {
                lemma_unique_push(self.scheduled@, scheduled);
            }
        }
        let ghost pre = self.scheduled@;
        self.scheduled.push(scheduled);
        proof {
            if old(self).inv() {
                assert forall|i: int| 0 <= i < self.scheduled@.len() implies has_id(
                    self.accounts@,
                    #[trigger] self.scheduled@[i].linked_account(),
                ) by {
                    if i < pre.len() {
                        assert(self.scheduled@[i] == pre[i]);
                    }
                }
            }
        }
        Ok(())
    }

    /// Full-row update keyed by the scheduled transaction's id, with
    /// the same foreign-key rule as `update_transaction`.
    pub fn update_scheduled(&mut self, scheduled: ScheduledTransaction, engine_fault: bool) -> (r:
        Result<(), StoreError>)
        ensures
            engine_fault ==> r == Err::<(), StoreError>(StoreError::Storage) && *final(self)
                == *old(self),
            !engine_fault && !has_id(old(self).scheduled@, scheduled.row_id()) ==> r
                == Ok::<(), StoreError>(()) && *final(self) == *old(self),
            !engine_fault && has_id(old(self).scheduled@, scheduled.row_id()) && !has_id(
                old(self).accounts@,
                scheduled.linked_account(),
            ) ==> r == Err::<(), StoreError>(StoreError::ForeignKey) && *final(self) == *old(self),
            !engine_fault && has_id(old(self).scheduled@, scheduled.row_id()) && has_id(
                old(self).accounts@,
                scheduled.linked_account(),
            ) ==> r == Ok::<(), StoreError>(()) && final(self).scheduled@ == spec_update_by_id(
                old(self).scheduled@,
                scheduled,
            ),
            final(self).accounts == old(self).accounts,
            final(self).transactions == old(self).transactions,
            final(self).categories == old(self).categories,
            final(self).settings == old(self).settings,
            final(self).schema == old(self).schema,
            old(self).inv() ==> final(self).inv(),
    {
        if engine_fault {
            return Err(StoreError::Storage);
        }
        if !contains_id(&self.scheduled, &scheduled.id) {
            return Ok(());
        }
        if !contains_id(&self.accounts, &scheduled.account_id) {
            return Err(StoreError::ForeignKey);
        }
        let ghost pre = self.scheduled@;
        update_rows(&mut self.scheduled, &scheduled);
        proof {
            lemma_update_keeps_ids(pre, scheduled);
            if old(self).inv() {
                assert forall|i: int| 0 <= i < self.scheduled@.len() implies has_id(
                    self.accounts@,
                    #[trigger] self.scheduled@[i].linked_account(),
                ) by {
                    if self.scheduled@[i] == scheduled {
                    } else {
                        assert(self.scheduled@[i] == pre[i]);
                    }
                }
            }
        }
        Ok(())
    }

    /// Cascading account deletion, inside one transaction: first every
    /// transaction of the account, then every scheduled transaction of
    /// it, then the account row.  A missing id deletes nothing and
    /// still succeeds.  On a fault at any step nothing at all is
    /// deleted.  `to_account_id` references to the deleted account are
    /// left in place, as the storage layer defines no constraint on
    /// them; callers should know they may dangle.
    pub fn delete_account(&mut self, id: &String, engine_fault: bool) -> (r: Result<
        (),
        StoreError,
    >)
        ensures
            engine_fault ==> r == Err::<(), StoreError>(StoreError::Storage) && *final(self)
                == *old(self),
            !engine_fault ==> r == Ok::<(), StoreError>(()),
            !engine_fault ==> final(self).transactions@ == spec_delete_by_account(
                old(self).transactions@,
                id@,
            ),
            !engine_fault ==> final(self).scheduled@ == spec_delete_by_account(
                old(self).scheduled@,
                id@,
            ),
            !engine_fault ==> final(self).accounts@ == spec_delete_by_id(old(self).accounts@, id@),
            !engine_fault ==> !has_id(final(self).accounts@, id@),
            !engine_fault ==> forall|i: int|
                0 <= i < final(self).transactions@.len()
                    ==> #[trigger] final(self).transactions@[i].linked_account() != id@,
            !engine_fault ==> forall|i: int|
                0 <= i < final(self).scheduled@.len()
                    ==> #[trigger] final(self).scheduled@[i].linked_account() != id@,
            final(self).categories == old(self).categories,
            final(self).settings == old(self).settings,
            final(self).schema == old(self).schema,
            old(self).inv() ==> final(self).inv(),
    {
        if engine_fault {
            return Err(StoreError::Storage);
        }
        let ghost pre_txs = self.transactions@;
        let ghost pre_sched = self.scheduled@;
        let ghost pre_accounts = self.accounts@;
        let kept_txs = filter_out_account(&self.transactions, id);
        let kept_sched = filter_out_account(&self.scheduled, id);
        let kept_accounts = filter_out_id(&self.accounts, id);
        self.transactions = kept_txs;
        self.scheduled = kept_sched;
        self.accounts = kept_accounts;
        proof {
            broadcast use vstd::seq_lib::group_filter_ensures;

            assert forall|i: int| 0 <= i < self.transactions@.len() implies #[trigger] self
                .transactions@[i].linked_account() != id@ by {
                assert(keeps_account::<Transaction>(id@)(self.transactions@[i]));
            }
            assert forall|i: int| 0 <= i < self.scheduled@.len() implies #[trigger] self
                .scheduled@[i].linked_account() != id@ by {
                assert(keeps_account::<ScheduledTransaction>(id@)(self.scheduled@[i]));
            }
            assert(!has_id(self.accounts@, id@)) by {
                if has_id(self.accounts@, id@) {
                    let i = choose|i: int|
                        0 <= i < self.accounts@.len() && #[trigger] self.accounts@[i].row_id()
                            == id@;
                    assert(keeps_id::<Account>(id@)(self.accounts@[i]));
                }
            }
            if old(self).inv() {
                lemma_unique_filter(pre_txs, keeps_account::<Transaction>(id@));
                lemma_unique_filter(pre_sched, keeps_account::<ScheduledTransaction>(id@));
                lemma_unique_filter(pre_accounts, keeps_id::<Account>(id@));
                lemma_filter_subset(pre_txs, keeps_account::<Transaction>(id@));
                lemma_filter_subset(pre_sched, keeps_account::<ScheduledTransaction>(id@));
                assert forall|i: int| 0 <= i < self.transactions@.len() implies has_id(
                    self.accounts@,
                    #[trigger] self.transactions@[i].linked_account(),
                ) by {
                    let t = self.transactions@[i];
                    assert(pre_txs.contains(t));
                    let k = choose|k: int| 0 <= k < pre_txs.len() && pre_txs[k] == t;
                    assert(has_id(pre_accounts, t.linked_account()));
                    let a = choose|a: int|
                        0 <= a < pre_accounts.len() && #[trigger] pre_accounts[a].row_id()
                            == t.linked_account();
                    assert(keeps_account::<Transaction>(id@)(t));
                    assert(t.linked_account() != id@);
                    assert(keeps_id::<Account>(id@)(pre_accounts[a]));
                    assert(self.accounts@.contains(pre_accounts[a]));
                    let w = choose|w: int|
                        0 <= w < self.accounts@.len() && self.accounts@[w] == pre_accounts[a];
                    assert(self.accounts@[w].row_id() == t.linked_account());
                }
                assert forall|i: int| 0 <= i < self.scheduled@.len() implies has_id(
                    self.accounts@,
                    #[trigger] self.scheduled@[i].linked_account(),
                ) by {
                    let t = self.scheduled@[i];
                    assert(pre_sched.contains(t));
                    let k = choose|k: int| 0 <= k < pre_sched.len() && pre_sched[k] == t;
                    assert(has_id(pre_accounts, t.linked_account()));
                    let a = choose|a: int|
                        0 <= a < pre_accounts.len() && #[trigger] pre_accounts[a].row_id()
                            == t.linked_account();
                    assert(keeps_account::<ScheduledTransaction>(id@)(t));
                    assert(t.linked_account() != id@);
                    assert(keeps_id::<Account>(id@)(pre_accounts[a]));
                    assert(self.accounts@.contains(pre_accounts[a]));
                    let w = choose|w: int|
                        0 <= w < self.accounts@.len() && self.accounts@[w] == pre_accounts[a];
                    assert(self.accounts@[w].row_id() == t.linked_account());
                }
            }
        }
        Ok(())
    }

    /// All-or-nothing bulk import: deletes every row of the four entity
    /// tables (children first), then strict-inserts the snapshot in
    /// order — accounts, categories, transactions, scheduled.  Any
    /// duplicate key or dangling reference inside the snapshot, or any
    /// storage fault, rolls the whole operation back.  Settings are
    /// untouched.
    pub fn import_data(&mut self, data: AppData, engine_fault: bool) -> (r: Result<(), StoreError>)
        ensures
            engine_fault ==> r == Err::<(), StoreError>(StoreError::Storage) && *final(self)
                == *old(self),
            !engine_fault ==> match spec_import_error(
                data.accounts@,
                data.categories@,
                data.transactions@,
                data.scheduled@,
            ) {
                Some(e) => r == Err::<(), StoreError>(e) && *final(self) == *old(self),
                None => r == Ok::<(), StoreError>(()) && final(self).accounts@ == data.accounts@
                    && final(self).categories@ == data.categories@ && final(self).transactions@
                    == data.transactions@ && final(self).scheduled@ == data.scheduled@
                    && final(self).settings == old(self).settings
                    && final(self).schema == old(self).schema && final(self).inv(),
            },
            old(self).inv() ==> final(self).inv(),
    {
        if engine_fault {
            return Err(StoreError::Storage);
        }
        match first_unique_err_exec(&data.accounts) {
            Some(e) => {
                return Err(e);
            },
            None => {},
        }
        match first_unique_err_exec(&data.categories) {
            Some(e) => {
                return Err(e);
            },
            None => {},
        }
        match first_child_err_exec(&data.transactions, &data.accounts) {
            Some(e) => {
                return Err(e);
            },
            None => {},
        }
        match first_child_err_exec(&data.scheduled, &data.accounts) {
            Some(e) => {
                return Err(e);
            },
            None => {},
        }
        let AppData { accounts, transactions, categories, scheduled } = data;
        self.accounts = accounts;
        self.transactions = transactions;
        self.categories = categories;
        self.scheduled = scheduled;
        proof {
            lemma_walk_unique(data.accounts@, 0);
            lemma_no_dups_unique(data.accounts@);
            lemma_walk_unique(data.categories@, 0);
            lemma_no_dups_unique(data.categories@);
            lemma_walk_child(data.transactions@, 0, data.accounts@);
            lemma_no_dups_unique(data.transactions@);
            lemma_walk_child(data.scheduled@, 0, data.accounts@);
            lemma_no_dups_unique(data.scheduled@);
        }
        Ok(())
    }
}

} // verus!
