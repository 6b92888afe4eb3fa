//! The tables of the database, as a transaction sees them: rows in the order of their keys.
use vstd::prelude::*;

use crate::block::BlockNumber;
use crate::felt::{felt_eq, StarkFelt};
#[allow(unused_imports)]
use crate::felt::felt_lt;

verus! {

/// A failed table operation.
#[derive(Debug, Clone, Copy, PartialEq, Eq, Structural)]
pub enum DbError {
    /// A row with the key is already in the table.
    KeyExist,
}

/// The result of a table operation.
pub type DbResult<T> = Result<T, DbError>;

/// A key of a table: a type with a total order.
pub trait TableKey: Sized {
    /// Whether `self` comes before `other`.
    spec fn precedes(self, other: Self) -> bool;

    /// The order is irreflexive, transitive and total.
    proof fn lemma_total_order(a: Self, b: Self, c: Self)
        ensures
            !a.precedes(a),
            a.precedes(b) && b.precedes(c) ==> a.precedes(c),
            a == b || a.precedes(b) || b.precedes(a),
    ;

    /// Decides whether `self` comes before `other`.
    fn comes_before(&self, other: &Self) -> (r: bool)
        ensures
            r == self.precedes(*other),
    ;
}

impl TableKey for BlockNumber {
    open spec fn precedes(self, other: Self) -> bool {
        self.0 < other.0
    }

    proof fn lemma_total_order(a: Self, b: Self, c: Self) {
    }

    fn comes_before(&self, other: &Self) -> (r: bool) {
        self.0 < other.0
    }
}

impl TableKey for StarkFelt {
    open spec fn precedes(self, other: Self) -> bool {
        felt_lt(self, other)
    }

    proof fn lemma_total_order(a: Self, b: Self, c: Self) {
    }

    fn comes_before(&self, other: &Self) -> (r: bool) {
        self.0 < other.0 || (self.0 == other.0 && self.1 < other.1)
    }
}

impl TableKey for (StarkFelt, BlockNumber) {
    open spec fn precedes(self, other: Self) -> bool {
        felt_lt(self.0, other.0) || (self.0 == other.0 && self.1.0 < other.1.0)
    }

    proof fn lemma_total_order(a: Self, b: Self, c: Self) {
    }

    fn comes_before(&self, other: &Self) -> (r: bool) {
        self.0.comes_before(&other.0) || (felt_eq(&self.0, &other.0) && self.1.0 < other.1.0)
    }
}

impl TableKey for (StarkFelt, StarkFelt, BlockNumber) {
    open spec fn precedes(self, other: Self) -> bool {
        felt_lt(self.0, other.0) || (self.0 == other.0 && (felt_lt(self.1, other.1) || (self.1
            == other.1 && self.2.0 < other.2.0)))
    }

    proof fn lemma_total_order(a: Self, b: Self, c: Self) {
    }

    fn comes_before(&self, other: &Self) -> (r: bool) {
        self.0.comes_before(&other.0) || (felt_eq(&self.0, &other.0) && (self.1.comes_before(
            &other.1,
        ) || (felt_eq(&self.1, &other.1) && self.2.0 < other.2.0)))
    }
}

/// Whether the keys of the rows are strictly increasing.
pub open spec fn rows_sorted<K: TableKey, V>(rows: Seq<(K, V)>) -> bool {
    forall|i: int, j: int| 0 <= i < j < rows.len() ==> (#[trigger] rows[i]).0.precedes((#[trigger] rows[j]).0)
}

/// Whether one of the rows has the key.
pub open spec fn rows_contain<K, V>(rows: Seq<(K, V)>, key: K) -> bool {
    exists|i: int| 0 <= i < rows.len() && (#[trigger] rows[i]).0 == key
}

/// The rows as a map from keys to values.
pub open spec fn rows_map<K, V>(rows: Seq<(K, V)>) -> Map<K, V> {
    Map::new(
        |key: K| rows_contain(rows, key),
        |key: K| rows[choose|i: int| 0 <= i < rows.len() && (#[trigger] rows[i]).0 == key].1,
    )
}

/// A table: rows with distinct keys, in the order of the keys.
pub struct TableHandle<K: TableKey, V> {
    rows: Vec<(K, V)>,
}

impl<K: TableKey, V> View for TableHandle<K, V> {
    type V = Map<K, V>;

    closed spec fn view(&self) -> Map<K, V> {
        rows_map(self.rows@)
    }
}

impl<K: TableKey, V> TableHandle<K, V> {
    #[verifier::type_invariant]
    closed spec fn inv(self) -> bool {
        rows_sorted(self.rows@)
    }

    /// The rows in the order of their keys.
    pub closed spec fn ordered_rows(self) -> Seq<(K, V)> {
        self.rows@
    }

    /// An empty table.
    pub fn new() -> (r: Self)
        ensures
            r@ == Map::<K, V>::empty(),
    {
        let r = TableHandle { rows: Vec::new() };
        assert(r@ =~= Map::<K, V>::empty());
        r
    }

    /// The number of rows whose keys come before `key`.
    fn position(&self, key: &K) -> (r: usize)
        ensures
            r <= self.rows.len(),
            forall|i: int| 0 <= i < r ==> (#[trigger] self.rows@[i]).0.precedes(*key),
            forall|i: int| r <= i < self.rows.len() ==> !(#[trigger] self.rows@[i]).0.precedes(*key),
    {
        proof {
            use_type_invariant(self);
        }
        let mut low: usize = 0;
        let mut high: usize = self.rows.len();
        while low < high
            invariant
                low <= high <= self.rows.len(),
                rows_sorted(self.rows@),
                forall|i: int| 0 <= i < low ==> (#[trigger] self.rows@[i]).0.precedes(*key),
                forall|i: int|
                    high <= i < self.rows.len() ==> !(#[trigger] self.rows@[i]).0.precedes(*key),
            decreases high - low,
        {
            let mid: usize = low + (high - low) / 2;
            if self.rows[mid].0.comes_before(key) {
                assert forall|i: int| 0 <= i < mid + 1 implies
                    (#[trigger] self.rows@[i]).0.precedes(
                    *key,
                ) by {
                    K::lemma_total_order(self.rows@[i].0, self.rows@[mid as int].0, *key);
                }
                low = mid + 1;
            } else {
                assert forall|i: int| mid <= i < self.rows.len() implies !(
                #[trigger] self.rows@[i]).0.precedes(*key) by {
                    K::lemma_total_order(self.rows@[mid as int].0, self.rows@[i].0, *key);
                }
                high = mid;
            }
        }
        low
    }

    /// The position of the row with the key, or where such a row belongs.
    fn find(&self, key: &K) -> (r: (usize, bool))
        ensures
            r.0 <= self.rows.len(),
            forall|i: int| 0 <= i < r.0 ==> (#[trigger] self.rows@[i]).0.precedes(*key),
            r.1 ==> r.0 < self.rows.len() && self.rows@[r.0 as int].0 == *key,
            !r.1 ==> forall|i: int|
                r.0 <= i < self.rows.len() ==> key.precedes((#[trigger] self.rows@[i]).0),
            r.1 == self@.contains_key(*key),
            r.1 ==> self@[*key] == self.rows@[r.0 as int].1,
    {
        proof {
            use_type_invariant(self);
        }
        let p: usize = self.position(key);
        if p < self.rows.len() && !key.comes_before(&self.rows[p].0) {
            proof {
                K::lemma_total_order(self.rows@[p as int].0, *key, *key);
                lemma_row_in_map(self.rows@, p as int);
            }
            (p, true)
        } else {
            proof {
                assert forall|i: int| p <= i < self.rows.len() implies key.precedes(
                    (#[trigger] self.rows@[i]).0,
                ) by {
                    K::lemma_total_order(*key, self.rows@[p as int].0, self.rows@[i].0);
                }
                assert forall|i: int| 0 <= i < self.rows.len() implies (#[trigger] self.rows@[i]).0
                    != *key by {
                    K::lemma_total_order(*key, *key, *key);
                }
            }
            (p, false)
        }
    }

    /// The value of the row with the key.
    pub fn get(&self, key: &K) -> (r: Option<&V>)
        ensures
            r is Some <==> self@.contains_key(*key),
            r matches Some(v) ==> *v == self@[*key],
    {
        let (p, found) = self.find(key);
        if found {
            Some(&self.rows[p].1)
        } else {
            None
        }
    }

    /// Adds a row, unless the table has one with the key.
    pub fn insert(&mut self, key: K, value: V) -> (r: DbResult<()>)
        ensures
            old(self)@.contains_key(key) ==> r == Err::<(), DbError>(DbError::KeyExist)
                && *final(self) == *old(self),
            !old(self)@.contains_key(key) ==> r == Ok::<(), DbError>(()) && final(self)@
                == old(self)@.insert(key, value),
    {
        let (p, found) = self.find(&key);
        if found {
            Err(DbError::KeyExist)
        } else {
            self.insert_at(p, key, value);
            Ok(())
        }
    }

    /// Puts a new row where it belongs.
    fn insert_at(&mut self, p: usize, key: K, value: V)
        requires
            p <= old(self).ordered_rows().len(),
            forall|i: int| 0 <= i < p ==> (#[trigger] old(self).ordered_rows()[i]).0.precedes(key),
            forall|i: int|
                p <= i < old(self).ordered_rows().len() ==> key.precedes(
                    (#[trigger] old(self).ordered_rows()[i]).0,
                ),
        ensures
            final(self)@ == old(self)@.insert(key, value),
    {
        proof {
            use_type_invariant(&*self);
        }
        let mut rows: Vec<(K, V)> = Vec::new();
        std::mem::swap(&mut rows, &mut self.rows);
        let ghost before = rows@;
        rows.insert(p, (key, value));
        proof {
            lemma_insert_row(before, p as int, key, value);
        }
        self.rows = rows;
    }

    /// Sets the value of the row with the key, adding the row if there is none.
    pub fn upsert(&mut self, key: K, value: V)
        ensures
            final(self)@ == old(self)@.insert(key, value),
    {
        let (p, found) = self.find(&key);
        if found {
            proof {
                use_type_invariant(&*self);
            }
            let mut rows: Vec<(K, V)> = Vec::new();
            std::mem::swap(&mut rows, &mut self.rows);
            let ghost before = rows@;
            rows.set(p, (key, value));
            proof {
                lemma_update_row(before, p as int, value);
            }
            self.rows = rows;
        } else {
            self.insert_at(p, key, value);
        }
    }

    /// Removes the row with the key, if there is one.
    pub fn delete(&mut self, key: &K)
        ensures
            final(self)@ == old(self)@.remove(*key),
    {
        let (p, found) = self.find(key);
        if found {
            proof {
                use_type_invariant(&*self);
            }
            let mut rows: Vec<(K, V)> = Vec::new();
            std::mem::swap(&mut rows, &mut self.rows);
            let ghost before = rows@;
            let _ = rows.remove(p);
            proof {
                lemma_remove_row(before, p as int);
            }
            self.rows = rows;
        } else {
            assert(self@ =~= old(self)@.remove(*key));
        }
    }

    /// The rows in the order of their keys.
    pub fn rows(&self) -> (r: &Vec<(K, V)>)
        ensures
            r@ == self.ordered_rows(),
            rows_sorted(r@),
            rows_map(r@) == self@,
            forall|i: int|
                0 <= i < r@.len() ==> self@.contains_key((#[trigger] r@[i]).0) && self@[r@[i].0]
                    == r@[i].1,
            forall|k: K| #[trigger]
                self@.contains_key(k) ==> exists|i: int|
                    0 <= i < r@.len() && (#[trigger] r@[i]).0 == k,
    {
        proof {
            use_type_invariant(self);
            assert forall|i: int| 0 <= i < self.rows@.len() implies self@.contains_key(
                (#[trigger] self.rows@[i]).0,
            ) && self@[self.rows@[i].0] == self.rows@[i].1 by {
                lemma_row_in_map(self.rows@, i);
            }
        }
        &self.rows
    }

    /// A cursor over the rows, before the first one.
    pub fn cursor(&self) -> (r: DbCursor<'_, K, V>)
        ensures
            r.rows() == self.ordered_rows(),
            r.position() == 0,
            rows_sorted(r.rows()),
            rows_map(r.rows()) == self@,
    {
        proof {
            use_type_invariant(self);
        }
        DbCursor { table: self, next: 0 }
    }
}

/// A position between the rows of a table.
pub struct DbCursor<'a, K: TableKey, V> {
    table: &'a TableHandle<K, V>,
    next: usize,
}

impl<'a, K: TableKey, V> DbCursor<'a, K, V> {
    #[verifier::type_invariant]
    closed spec fn inv(self) -> bool {
        self.next <= self.table.rows.len()
    }

    /// The rows that the cursor moves over.
    pub closed spec fn rows(self) -> Seq<(K, V)> {
        self.table.rows@
    }

    /// The number of rows before the cursor.
    pub closed spec fn position(self) -> nat {
        self.next as nat
    }

    /// Moves to the first row whose key is not before `key`, and returns that row. Without such a
    /// row, moves behind the last row.
    pub fn lower_bound(&mut self, key: &K) -> (r: Option<(&'a K, &'a V)>)
        ensures
            final(self).rows() == old(self).rows(),
            final(self).position() <= old(self).rows().len(),
            forall|i: int|
                0 <= i < final(self).position() ==> (#[trigger] old(self).rows()[i]).0.precedes(
                    *key,
                ),
            forall|i: int|
                final(self).position() <= i < old(self).rows().len() ==> !(
                #[trigger] old(self).rows()[i]).0.precedes(*key),
            r is Some <==> final(self).position() < old(self).rows().len(),
            r matches Some((k, v)) ==> (*k, *v) == old(self).rows()[final(self).position() as int],
    {
        let table = self.table;
        let p: usize = table.position(key);
        self.next = p;
        if p < table.rows.len() {
            let row = &table.rows[p];
            Some((&row.0, &row.1))
        } else {
            None
        }
    }

    /// Moves back by one row, and returns the row. Stays where it is if no row comes before.
    pub fn prev(&mut self) -> (r: Option<(&'a K, &'a V)>)
        ensures
            final(self).rows() == old(self).rows(),
            r is Some <==> old(self).position() > 0,
            r is None ==> final(self).position() == 0,
            r matches Some((k, v)) ==> final(self).position() == old(self).position() - 1 && old(
                self,
            ).position() <= old(self).rows().len() && (*k, *v) == old(self).rows()[old(
                self,
            ).position() - 1],
    {
        proof {
            use_type_invariant(&*self);
        }
        if self.next > 0 {
            let table = self.table;
            let p: usize = self.next - 1;
            self.next = p;
            let row = &table.rows[p];
            Some((&row.0, &row.1))
        } else {
            None
        }
    }
}

/// Rows are sorted if each key comes before the keys of all later rows. Read as a map, sorted rows
/// give each key the value beside it, and no other key.
pub proof fn law_rows_as_map<K: TableKey, V>(rows: Seq<(K, V)>)
    ensures
        rows_sorted(rows) <==> forall|i: int, j: int|
            0 <= i < j < rows.len() ==> (#[trigger] rows[i]).0.precedes((#[trigger] rows[j]).0),
        rows_sorted(rows) ==> forall|i: int|
            0 <= i < rows.len() ==> rows_map(rows).contains_key((#[trigger] rows[i]).0) && rows_map(
                rows,
            )[rows[i].0] == rows[i].1,
        forall|k: K| #[trigger]
            rows_map(rows).contains_key(k) ==> exists|i: int|
                0 <= i < rows.len() && (#[trigger] rows[i]).0 == k,
{
    if rows_sorted(rows) {
        assert forall|i: int| 0 <= i < rows.len() implies rows_map(rows).contains_key(
            (#[trigger] rows[i]).0,
        ) && rows_map(rows)[rows[i].0] == rows[i].1 by {
            lemma_row_in_map(rows, i);
        }
    }
}

/// Keys are ordered by their parts from left to right, each as a number.
pub proof fn law_key_order(
    a: StarkFelt,
    b: StarkFelt,
    k: StarkFelt,
    l: StarkFelt,
    m: BlockNumber,
    n: BlockNumber,
)
    ensures
        m.precedes(n) <==> m.0 < n.0,
        a.precedes(b) <==> a.0 < b.0 || (a.0 == b.0 && a.1 < b.1),
        (a, m).precedes((b, n)) <==> a.precedes(b) || (a == b && m.precedes(n)),
        (a, k, m).precedes((b, l, n)) <==> a.precedes(b) || (a == b && (k.precedes(l) || (k == l
            && m.precedes(n)))),
{
}

/// The row at a position is what the map holds under its key.
pub proof fn lemma_row_in_map<K: TableKey, V>(rows: Seq<(K, V)>, i: int)
    requires
        rows_sorted(rows),
        0 <= i < rows.len(),
    ensures
        rows_map(rows).contains_key(rows[i].0),
        rows_map(rows)[rows[i].0] == rows[i].1,
{
    let key = rows[i].0;
    let j = choose|j: int| 0 <= j < rows.len() && (#[trigger] rows[j]).0 == key;
    K::lemma_total_order(key, key, key);
    assert(i == j);
}

/// A new row at its place keeps the rows sorted and adds its key to the map.
proof fn lemma_insert_row<K: TableKey, V>(rows: Seq<(K, V)>, p: int, key: K, value: V)
    requires
        rows_sorted(rows),
        0 <= p <= rows.len(),
        forall|i: int| 0 <= i < p ==> (#[trigger] rows[i]).0.precedes(key),
        forall|i: int| p <= i < rows.len() ==> key.precedes((#[trigger] rows[i]).0),
    ensures
        rows_sorted(rows.insert(p, (key, value))),
        rows_map(rows.insert(p, (key, value))) == rows_map(rows).insert(key, value),
{
    let after = rows.insert(p, (key, value));
    assert(rows_sorted(after));
    lemma_row_in_map(after, p);
    assert forall|k: K| k != key && rows_contain(rows, k) implies rows_contain(after, k)
        && rows_map(after)[k] == rows_map(rows)[k] by {
        let i = choose|i: int| 0 <= i < rows.len() && (#[trigger] rows[i]).0 == k;
        lemma_row_in_map(rows, i);
        let j = if i < p { i } else { i + 1 };
        assert(after[j] == rows[i]);
        lemma_row_in_map(after, j);
    }
    assert forall|k: K| k != key && rows_contain(after, k) implies rows_contain(rows, k) by {
        let j = choose|j: int| 0 <= j < after.len() && (#[trigger] after[j]).0 == k;
        let i = if j < p { j } else { j - 1 };
        assert(rows[i] == after[j]);
    }
    assert(rows_map(after) =~= rows_map(rows).insert(key, value));
}

/// Another value in a row keeps the rows sorted and changes the value under the key.
proof fn lemma_update_row<K: TableKey, V>(rows: Seq<(K, V)>, p: int, value: V)
    requires
        rows_sorted(rows),
        0 <= p < rows.len(),
    ensures
        rows_sorted(rows.update(p, (rows[p].0, value))),
        rows_map(rows.update(p, (rows[p].0, value))) == rows_map(rows).insert(rows[p].0, value),
{
    let key = rows[p].0;
    let after = rows.update(p, (key, value));
    assert(forall|i: int| 0 <= i < rows.len() ==> (#[trigger] after[i]).0 == rows[i].0);
    assert(rows_sorted(after));
    lemma_row_in_map(after, p);
    assert forall|k: K| k != key && rows_contain(rows, k) implies rows_contain(after, k)
        && rows_map(after)[k] == rows_map(rows)[k] by {
        let i = choose|i: int| 0 <= i < rows.len() && (#[trigger] rows[i]).0 == k;
        lemma_row_in_map(rows, i);
        assert(after[i] == rows[i]);
        lemma_row_in_map(after, i);
    }
    assert forall|k: K| k != key && rows_contain(after, k) implies rows_contain(rows, k) by {
        let j = choose|j: int| 0 <= j < after.len() && (#[trigger] after[j]).0 == k;
        assert(rows[j].0 == k);
    }
    assert(rows_map(after) =~= rows_map(rows).insert(key, value));
}

/// Without one of its rows, a table stays sorted and loses that row's key only.
proof fn lemma_remove_row<K: TableKey, V>(rows: Seq<(K, V)>, p: int)
    requires
        rows_sorted(rows),
        0 <= p < rows.len(),
    ensures
        rows_sorted(rows.remove(p)),
        rows_map(rows.remove(p)) == rows_map(rows).remove(rows[p].0),
{
    let key = rows[p].0;
    let after = rows.remove(p);
    assert(rows_sorted(after));
    assert(!rows_contain(after, key)) by {
        K::lemma_total_order(key, key, key);
        assert forall|j: int| 0 <= j < after.len() implies (#[trigger] after[j]).0 != key by {
            let i = if j < p { j } else { j + 1 };
            assert(after[j] == rows[i]);
        }
    }
    assert forall|k: K| k != key && rows_contain(rows, k) implies rows_contain(after, k)
        && rows_map(after)[k] == rows_map(rows)[k] by {
        let i = choose|i: int| 0 <= i < rows.len() && (#[trigger] rows[i]).0 == k;
        lemma_row_in_map(rows, i);
        let j = if i < p { i } else { i - 1 };
        assert(after[j] == rows[i]);
        lemma_row_in_map(after, j);
    }
    assert forall|k: K| rows_contain(after, k) implies rows_contain(rows, k) by {
        let j = choose|j: int| 0 <= j < after.len() && (#[trigger] after[j]).0 == k;
        let i = if j < p { j } else { j + 1 };
        assert(rows[i] == after[j]);
    }
    assert(rows_map(after) =~= rows_map(rows).remove(key));
}

} // verus!
