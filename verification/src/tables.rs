//! Row-level operations shared by the four entity tables.
//!
//! Each table holds rows keyed by a string id; transactions and
//! scheduled transactions additionally reference an account.  The
//! helpers here implement the per-statement semantics — lookup by key,
//! full-row update, delete by key, delete by referenced account — and
//! each is specified against the sequence of rows it leaves behind.

use vstd::prelude::*;
use vstd::pervasive::VecAdditionalExecFns;

verus! {

/// A row of one of the four entity tables.
pub trait TableRow: Sized {
    /// The primary key.
    spec fn row_id(&self) -> Seq<char>;

    fn row_id_ref(&self) -> (r: &String)
        ensures
            r@ == self.row_id(),
    ;

    /// An exact copy; unlike a generic `clone`, callers know the copy
    /// equals the original.
    fn duplicate(&self) -> (r: Self)
        ensures
            r == *self,
    ;
}

/// A row that references an account.
pub trait AccountLinked: Sized {
    /// The id of the account the row belongs to.
    spec fn linked_account(&self) -> Seq<char>;

    fn linked_account_ref(&self) -> (r: &String)
        ensures
            r@ == self.linked_account(),
    ;
}

pub fn string_eq(a: &String, b: &String) -> (r: bool)
    ensures
        r == (a@ == b@),
{
    a.eq(b)
}

/// Some row carries the key `id`.
pub open spec fn has_id<T: TableRow>(s: Seq<T>, id: Seq<char>) -> bool {
    exists|i: int| 0 <= i < s.len() && #[trigger] s[i].row_id() == id
}

/// No two rows share a key.
pub open spec fn unique_ids<T: TableRow>(s: Seq<T>) -> bool {
    forall|i: int, j: int|
        0 <= i < j < s.len() ==> #[trigger] s[i].row_id() != #[trigger] s[j].row_id()
}

/// The predicate selecting rows whose key is not `id`.
pub open spec fn keeps_id<T: TableRow>(id: Seq<char>) -> spec_fn(T) -> bool {
    |t: T| t.row_id() != id
}

/// The predicate selecting rows not referencing account `id`.
pub open spec fn keeps_account<T: AccountLinked>(id: Seq<char>) -> spec_fn(T) -> bool {
    |t: T| t.linked_account() != id
}

/// What a delete-by-key statement leaves of the table.
pub open spec fn spec_delete_by_id<T: TableRow>(s: Seq<T>, id: Seq<char>) -> Seq<T> {
    s.filter(keeps_id(id))
}

/// What a delete-by-account statement leaves of the table.
pub open spec fn spec_delete_by_account<T: TableRow + AccountLinked>(
    s: Seq<T>,
    id: Seq<char>,
) -> Seq<T> {
    s.filter(keeps_account(id))
}

/// What a full-row update keyed by the row's id leaves of the table:
/// every row carrying that key is replaced, all others stay.
pub open spec fn spec_update_by_id<T: TableRow>(s: Seq<T>, x: T) -> Seq<T> {
    Seq::new(s.len(), |i: int| if s[i].row_id() == x.row_id() { x } else { s[i] })
}

/// What an insert-or-ignore statement leaves of the table.
pub open spec fn spec_insert_or_ignore<T: TableRow>(s: Seq<T>, x: T) -> Seq<T> {
    if has_id(s, x.row_id()) {
        s
    } else {
        s.push(x)
    }
}

proof fn lemma_filter_push<A>(s: Seq<A>, x: A, pred: spec_fn(A) -> bool)
    ensures
        pred(x) ==> s.push(x).filter(pred) == s.filter(pred).push(x),
        !pred(x) ==> s.push(x).filter(pred) == s.filter(pred),
{
    reveal(Seq::filter);
    assert(s.push(x).drop_last() =~= s);
    assert(s.push(x).last() == x);
}

/// Whether some row carries the key `id`.
pub fn contains_id<T: TableRow>(v: &Vec<T>, id: &String) -> (r: bool)
    ensures
        r == has_id(v@, id@),
{
    let mut i: usize = 0;
    while i < v.len()
        invariant
            i <= v@.len(),
            forall|j: int| 0 <= j < i ==> #[trigger] v@[j].row_id() != id@,
        decreases v@.len() - i,
    {
        if string_eq(v[i].row_id_ref(), id) {
            return true;
        }
        i = i + 1;
    }
    false
}

/// An exact copy of the table.
pub fn dup_rows<T: TableRow>(v: &Vec<T>) -> (r: Vec<T>)
    ensures
        r@ == v@,
{
    let mut out: Vec<T> = Vec::new();
    let mut i: usize = 0;
    while i < v.len()
        invariant
            i <= v@.len(),
            out@ == v@.subrange(0, i as int),
        decreases v@.len() - i,
    {
        out.push(v[i].duplicate());
        proof {
            assert(out@ =~= v@.subrange(0, i + 1 as int));
        }
        i = i + 1;
    }
    proof {
        assert(v@.subrange(0, v@.len() as int) =~= v@);
    }
    out
}

/// The rows whose key is not `id`, in order.
pub fn filter_out_id<T: TableRow>(v: &Vec<T>, id: &String) -> (r: Vec<T>)
    ensures
        r@ == spec_delete_by_id(v@, id@),
{
    let mut out: Vec<T> = Vec::new();
    let mut i: usize = 0;
    proof {
        assert(v@.subrange(0, 0).filter(keeps_id::<T>(id@)) =~= Seq::<T>::empty()) by {
            reveal(Seq::filter);
        }
    }
    while i < v.len()
        invariant
            i <= v@.len(),
            out@ == v@.subrange(0, i as int).filter(keeps_id::<T>(id@)),
        decreases v@.len() - i,
    {
        let keep = !string_eq(v[i].row_id_ref(), id);
        proof {
            lemma_filter_push(v@.subrange(0, i as int), v@[i as int], keeps_id::<T>(id@));
            assert(v@.subrange(0, i as int).push(v@[i as int]) =~= v@.subrange(0, i + 1 as int));
        }
        if keep {
            out.push(v[i].duplicate());
        }
        i = i + 1;
    }
    proof {
        assert(v@.subrange(0, v@.len() as int) =~= v@);
    }
    out
}

/// The rows not referencing account `id`, in order.
pub fn filter_out_account<T: TableRow + AccountLinked>(v: &Vec<T>, id: &String) -> (r: Vec<T>)
    ensures
        r@ == spec_delete_by_account(v@, id@),
{
    let mut out: Vec<T> = Vec::new();
    let mut i: usize = 0;
    proof {
        assert(v@.subrange(0, 0).filter(keeps_account::<T>(id@)) =~= Seq::<T>::empty()) by {
            reveal(Seq::filter);
        }
    }
    while i < v.len()
        invariant
            i <= v@.len(),
            out@ == v@.subrange(0, i as int).filter(keeps_account::<T>(id@)),
        decreases v@.len() - i,
    {
        let keep = !string_eq(v[i].linked_account_ref(), id);
        proof {
            lemma_filter_push(v@.subrange(0, i as int), v@[i as int], keeps_account::<T>(id@));
            assert(v@.subrange(0, i as int).push(v@[i as int]) =~= v@.subrange(0, i + 1 as int));
        }
        if keep {
            out.push(v[i].duplicate());
        }
        i = i + 1;
    }
    proof {
        assert(v@.subrange(0, v@.len() as int) =~= v@);
    }
    out
}

/// Replaces every row carrying `x`'s key with `x`.
pub fn update_rows<T: TableRow>(v: &mut Vec<T>, x: &T)
    ensures
        final(v)@ == spec_update_by_id(old(v)@, *x),
{
    let mut i: usize = 0;
    while i < v.len()
        invariant
            i <= v@.len(),
            v@.len() == old(v)@.len(),
            forall|j: int|
                0 <= j < i ==> v@[j] == (if old(v)@[j].row_id() == x.row_id() {
                    *x
                } else {
                    old(v)@[j]
                }),
            forall|j: int| i <= j < v@.len() ==> v@[j] == old(v)@[j],
        decreases v@.len() - i,
    {
        if string_eq(v[i].row_id_ref(), x.row_id_ref()) {
            let d = x.duplicate();
            v.set(i, d);
        }
        i = i + 1;
    }
    proof {
        assert(v@ =~= spec_update_by_id(old(v)@, *x));
    }
}

/// Pushing a row extends the keys by exactly that row's key.
pub proof fn lemma_has_id_push<T: TableRow>(s: Seq<T>, x: T, id: Seq<char>)
    ensures
        has_id(s.push(x), id) == (has_id(s, id) || x.row_id() == id),
{
    if has_id(s, id) {
        let i = choose|i: int| 0 <= i < s.len() && #[trigger] s[i].row_id() == id;
        assert(s.push(x)[i].row_id() == id);
    }
    if x.row_id() == id {
        assert(s.push(x)[s.len() as int].row_id() == id);
    }
    if has_id(s.push(x), id) {
        let i = choose|i: int| 0 <= i < s.push(x).len() && #[trigger] s.push(x)[i].row_id() == id;
        if i < s.len() {
            assert(s[i].row_id() == id);
        }
    }
}

/// Pushing a fresh key keeps the keys unique.
pub proof fn lemma_unique_push<T: TableRow>(s: Seq<T>, x: T)
    requires
        unique_ids(s),
        !has_id(s, x.row_id()),
    ensures
        unique_ids(s.push(x)),
{
    assert forall|i: int, j: int|
        0 <= i < j < s.push(x).len() implies #[trigger] s.push(x)[i].row_id()
        != #[trigger] s.push(x)[j].row_id() by {
        if j < s.len() {
            assert(s[i].row_id() != s[j].row_id());
        } else {
            assert(s.push(x)[i] == s[i]);
            if s[i].row_id() == x.row_id() {
                assert(has_id(s, x.row_id()));
            }
        }
    }
}

/// A key found among filtered rows was present before filtering.
pub proof fn lemma_filter_has_id<T: TableRow>(s: Seq<T>, pred: spec_fn(T) -> bool, id: Seq<char>)
    ensures
        has_id(s.filter(pred), id) ==> has_id(s, id),
    decreases s.len(),
{
    reveal(Seq::filter);
    if s.len() > 0 {
        let dl = s.drop_last();
        lemma_filter_has_id(dl, pred, id);
        if has_id(s.filter(pred), id) {
            if pred(s.last()) {
                assert(s.filter(pred) == dl.filter(pred).push(s.last()));
                lemma_has_id_push(dl.filter(pred), s.last(), id);
                if s.last().row_id() == id {
                    assert(s[s.len() - 1].row_id() == id);
                } else {
                    assert(has_id(dl, id));
                    let i = choose|i: int| 0 <= i < dl.len() && #[trigger] dl[i].row_id() == id;
                    assert(s[i].row_id() == id);
                }
            } else {
                assert(has_id(dl, id));
                let i = choose|i: int| 0 <= i < dl.len() && #[trigger] dl[i].row_id() == id;
                assert(s[i].row_id() == id);
            }
        }
    }
}

/// Every filtered row is a row of the original table.
pub proof fn lemma_filter_subset<A>(s: Seq<A>, pred: spec_fn(A) -> bool)
    ensures
        forall|i: int| 0 <= i < s.filter(pred).len() ==> s.contains(#[trigger] s.filter(pred)[i]),
    decreases s.len(),
{
    reveal(Seq::filter);
    if s.len() > 0 {
        let dl = s.drop_last();
        lemma_filter_subset(dl, pred);
        assert forall|i: int|
            0 <= i < s.filter(pred).len() implies s.contains(#[trigger] s.filter(pred)[i]) by {
            if pred(s.last()) && i == s.filter(pred).len() - 1 {
                assert(s.filter(pred)[i] == s.last());
                assert(s[s.len() - 1] == s.last());
            } else {
                assert(s.filter(pred)[i] == dl.filter(pred)[i]);
                assert(dl.contains(dl.filter(pred)[i]));
                let k = choose|k: int| 0 <= k < dl.len() && dl[k] == dl.filter(pred)[i];
                assert(s[k] == dl.filter(pred)[i]);
            }
        }
    }
}

/// Filtering keeps the keys unique.
pub proof fn lemma_unique_filter<T: TableRow>(s: Seq<T>, pred: spec_fn(T) -> bool)
    requires
        unique_ids(s),
    ensures
        unique_ids(s.filter(pred)),
    decreases s.len(),
{
    reveal(Seq::filter);
    if s.len() > 0 {
        let dl = s.drop_last();
        assert(unique_ids(dl)) by {
            assert(forall|i: int, j: int|
                0 <= i < j < dl.len() ==> #[trigger] dl[i].row_id() != #[trigger] dl[j].row_id())
                by {
                assert(forall|i: int, j: int|
                    0 <= i < j < dl.len() ==> dl[i] == s[i] && dl[j] == s[j]);
            }
        }
        lemma_unique_filter(dl, pred);
        if pred(s.last()) {
            assert(s.filter(pred) == dl.filter(pred).push(s.last()));
            assert(!has_id(dl.filter(pred), s.last().row_id())) by {
                lemma_filter_has_id(dl, pred, s.last().row_id());
                if has_id(dl, s.last().row_id()) {
                    let i = choose|i: int|
                        0 <= i < dl.len() && #[trigger] dl[i].row_id() == s.last().row_id();
                    assert(s[i].row_id() == s[s.len() - 1].row_id());
                }
            }
            lemma_unique_push(dl.filter(pred), s.last());
        }
    }
}

/// A full-row update keyed by id never changes any row's key.
pub proof fn lemma_update_keeps_ids<T: TableRow>(s: Seq<T>, x: T)
    ensures
        spec_update_by_id(s, x).len() == s.len(),
        forall|i: int|
            0 <= i < s.len() ==> #[trigger] spec_update_by_id(s, x)[i].row_id() == s[i].row_id(),
        forall|id: Seq<char>| has_id(spec_update_by_id(s, x), id) == has_id(s, id),
        unique_ids(s) ==> unique_ids(spec_update_by_id(s, x)),
{
    let u = spec_update_by_id(s, x);
    assert forall|id: Seq<char>| has_id(u, id) == has_id(s, id) by {
        if has_id(u, id) {
            let i = choose|i: int| 0 <= i < u.len() && #[trigger] u[i].row_id() == id;
            assert(s[i].row_id() == id);
        }
        if has_id(s, id) {
            let i = choose|i: int| 0 <= i < s.len() && #[trigger] s[i].row_id() == id;
            assert(u[i].row_id() == id);
        }
    }
}

/// Deleting by a key leaves no row with that key and keeps every other
/// row; a key that matches nothing leaves the table unchanged.
pub proof fn lemma_delete_by_id_works<T: TableRow>(s: Seq<T>, id: Seq<char>)
    ensures
        !has_id(spec_delete_by_id(s, id), id),
        forall|i: int|
            0 <= i < s.len() && #[trigger] s[i].row_id() != id ==> spec_delete_by_id(
                s,
                id,
            ).contains(s[i]),
        !has_id(s, id) ==> spec_delete_by_id(s, id) == s,
{
    let pred = keeps_id::<T>(id);
    broadcast use vstd::seq_lib::group_filter_ensures;

    assert forall|i: int|
        0 <= i < s.len() && #[trigger] s[i].row_id() != id implies spec_delete_by_id(
        s,
        id,
    ).contains(s[i]) by {
        assert(pred(s[i]));
    }
    if !has_id(s, id) {
        assert(forall|i: int| 0 <= i < s.len() ==> #[trigger] pred(s[i]));
        lemma_filter_all(s, pred);
    }
}

proof fn lemma_filter_all<A>(s: Seq<A>, pred: spec_fn(A) -> bool)
    requires
        forall|i: int| 0 <= i < s.len() ==> #[trigger] pred(s[i]),
    ensures
        s.filter(pred) == s,
    decreases s.len(),
{
    reveal(Seq::filter);
    if s.len() > 0 {
        assert(pred(s.last()));
        lemma_filter_all(s.drop_last(), pred);
        assert(s.drop_last().push(s.last()) =~= s);
    }
}

/// An update whose key matches no row is a no-op.
pub proof fn lemma_update_missing_id_no_op<T: TableRow>(s: Seq<T>, x: T)
    requires
        !has_id(s, x.row_id()),
    ensures
        spec_update_by_id(s, x) == s,
{
    assert(spec_update_by_id(s, x) =~= s);
}

/// Inserting twice with the same key keeps the first row: the second
/// insert-or-ignore is a no-op, whatever its other fields hold.
pub proof fn lemma_insert_or_ignore_idempotent<T: TableRow>(s: Seq<T>, x: T, y: T)
    requires
        x.row_id() == y.row_id(),
    ensures
        spec_insert_or_ignore(spec_insert_or_ignore(s, x), y) == spec_insert_or_ignore(s, x),
{
    let s1 = spec_insert_or_ignore(s, x);
    if has_id(s, x.row_id()) {
        assert(has_id(s1, y.row_id()));
    } else {
        assert(s1[s.len() as int].row_id() == y.row_id());
        assert(has_id(s1, y.row_id()));
    }
}

} // verus!
