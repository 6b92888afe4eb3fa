//! How the meaning of pairs grows from one prefix to the next.
use vstd::prelude::*;

use crate::block::BlockNumber;
use crate::felt::{ContractAddress, StarkFelt, StorageKey};
#[allow(unused_imports)]
use crate::index_map::{distinct_keys, has_key, increasing_keys, key_index, value_of};
use crate::storage::StorageError;

use super::model::{by_key, entries_map, first_error, leading, rows_at, storage_rows_at};

verus! {

/// In pairs with distinct keys, each key has the value beside it.
pub proof fn lemma_value_of<P>(s: Seq<(StarkFelt, P)>, i: int)
    requires
        distinct_keys(s),
        0 <= i < s.len(),
    ensures
        has_key(s, s[i].0),
        value_of(s, s[i].0) == s[i].1,
{
    let j = key_index(s, s[i].0);
    assert(s[i].0 == s[i].0);
    assert(0 <= j < s.len() && s[j].0 == s[i].0);
    assert(i == j);
}

/// One more pair adds its key, and leaves the values of the other keys.
pub proof fn lemma_take_step<P>(s: Seq<(StarkFelt, P)>, i: int)
    requires
        distinct_keys(s),
        0 <= i < s.len(),
    ensures
        !has_key(s.take(i), s[i].0),
        forall|k: StarkFelt|
            #![trigger has_key(s.take(i + 1), k)]
            #![trigger has_key(s.take(i), k)]
            has_key(s.take(i + 1), k) <==> has_key(s.take(i), k) || k == s[i].0,
        forall|k: StarkFelt|
            has_key(s.take(i), k) ==> #[trigger] value_of(s.take(i + 1), k) == value_of(
                s.take(i),
                k,
            ),
        value_of(s.take(i + 1), s[i].0) == s[i].1,
{
    let a = s.take(i);
    let b = s.take(i + 1);
    assert forall|j: int| 0 <= j < i implies (#[trigger] a[j]).0 != s[i].0 by {
        assert(a[j] == s[j]);
    }
    assert(distinct_keys(b));
    assert(b[i] == s[i]);
    lemma_value_of(b, i);
    assert forall|k: StarkFelt| has_key(a, k) implies has_key(b, k) && value_of(b, k) == value_of(
        a,
        k,
    ) by {
        let j = key_index(a, k);
        assert(0 <= j < a.len() && a[j].0 == k);
        assert(b[j] == a[j]);
        lemma_value_of(b, j);
    }
    assert forall|k: StarkFelt| has_key(b, k) implies has_key(a, k) || k == s[i].0 by {
        let j = key_index(b, k);
        assert(0 <= j < b.len() && b[j].0 == k);
        if j < i {
            assert(a[j] == b[j]);
        }
    }
}

/// One more pair adds one row.
pub proof fn lemma_rows_at_step<P>(s: Seq<(StarkFelt, P)>, i: int, b: BlockNumber)
    requires
        distinct_keys(s),
        0 <= i < s.len(),
    ensures
        !rows_at(s.take(i), b).contains_key((s[i].0, b)),
        rows_at(s.take(i + 1), b) == rows_at(s.take(i), b).insert((s[i].0, b), s[i].1),
        entries_map(s.take(i + 1)) == entries_map(s.take(i)).insert(s[i].0, s[i].1),
{
    lemma_take_step(s, i);
    assert(rows_at(s.take(i + 1), b) =~= rows_at(s.take(i), b).insert((s[i].0, b), s[i].1));
    assert(entries_map(s.take(i + 1)) =~= entries_map(s.take(i)).insert(s[i].0, s[i].1));
}

/// The rows of one contract: the values of its storage keys from block `b` on.
pub open spec fn contract_rows_at(
    address: ContractAddress,
    s: Seq<(StorageKey, StarkFelt)>,
    b: BlockNumber,
) -> Map<(ContractAddress, StorageKey, BlockNumber), StarkFelt> {
    Map::new(
        |k: (ContractAddress, StorageKey, BlockNumber)|
            k.0 == address && k.2 == b && has_key(s, k.1),
        |k: (ContractAddress, StorageKey, BlockNumber)| value_of(s, k.1),
    )
}

/// One more pair adds one row of the contract.
pub proof fn lemma_contract_rows_at_step(
    address: ContractAddress,
    s: Seq<(StorageKey, StarkFelt)>,
    j: int,
    b: BlockNumber,
)
    requires
        distinct_keys(s),
        0 <= j < s.len(),
    ensures
        contract_rows_at(address, s.take(j + 1), b) == contract_rows_at(
            address,
            s.take(j),
            b,
        ).insert((address, s[j].0, b), s[j].1),
{
    lemma_take_step(s, j);
    assert(contract_rows_at(address, s.take(j + 1), b) =~= contract_rows_at(
        address,
        s.take(j),
        b,
    ).insert((address, s[j].0, b), s[j].1));
}

/// One more contract adds its rows.
pub proof fn lemma_storage_rows_at_step(
    s: Seq<(ContractAddress, Seq<(StorageKey, StarkFelt)>)>,
    i: int,
    b: BlockNumber,
)
    requires
        distinct_keys(s),
        0 <= i < s.len(),
    ensures
        storage_rows_at(s.take(i + 1), b) == storage_rows_at(s.take(i), b).union_prefer_right(
            contract_rows_at(s[i].0, s[i].1, b),
        ),
{
    lemma_take_step(s, i);
    assert(storage_rows_at(s.take(i + 1), b) =~= storage_rows_at(s.take(i), b).union_prefer_right(
        contract_rows_at(s[i].0, s[i].1, b),
    ));
}

/// One more element adds its error, where no earlier element has one.
pub proof fn lemma_first_error_step<T>(
    s: Seq<T>,
    i: int,
    f: spec_fn(T) -> Option<StorageError>,
)
    requires
        0 <= i < s.len(),
        first_error(s.take(i), f) is None,
    ensures
        first_error(s.take(i + 1), f) == f(s[i]),
        f(s[i]) is Some ==> first_error(s, f) == f(s[i]),
    decreases s.len(),
{
    assert(s.take(i + 1).drop_last() =~= s.take(i));
    if i + 1 == s.len() {
        assert(s.take(i + 1) =~= s);
    } else {
        let t = s.drop_last();
        assert(t.take(i) =~= s.take(i));
        lemma_first_error_step(t, i, f);
    }
}

/// One more pair takes away one more key.
pub proof fn lemma_remove_step<P, Q>(
    s: Seq<(StarkFelt, P)>,
    i: int,
    m: Map<StarkFelt, Q>,
)
    requires
        distinct_keys(s),
        0 <= i < s.len(),
    ensures
        m.remove_keys(entries_map(s.take(i + 1)).dom()) == m.remove_keys(
            entries_map(s.take(i)).dom(),
        ).remove(s[i].0),
        m.remove_keys(entries_map(s.take(i)).dom()).contains_key(s[i].0) == m.contains_key(s[i].0),
{
    lemma_take_step(s, i);
    assert(m.remove_keys(entries_map(s.take(i + 1)).dom()) =~= m.remove_keys(
        entries_map(s.take(i)).dom(),
    ).remove(s[i].0));
}

/// One more pair takes away one more row.
pub proof fn lemma_remove_row_step<P, Q>(
    s: Seq<(StarkFelt, P)>,
    i: int,
    b: BlockNumber,
    m: Map<(StarkFelt, BlockNumber), Q>,
)
    requires
        distinct_keys(s),
        0 <= i < s.len(),
    ensures
        m.remove_keys(rows_at(s.take(i + 1), b).dom()) == m.remove_keys(
            rows_at(s.take(i), b).dom(),
        ).remove((s[i].0, b)),
{
    lemma_take_step(s, i);
    assert(m.remove_keys(rows_at(s.take(i + 1), b).dom()) =~= m.remove_keys(
        rows_at(s.take(i), b).dom(),
    ).remove((s[i].0, b)));
}

/// A new pair adds its key and its value to the map.
pub proof fn lemma_push_entry<P>(s: Seq<(StarkFelt, P)>, k: StarkFelt, v: P)
    requires
        distinct_keys(s),
        !has_key(s, k),
    ensures
        distinct_keys(s.push((k, v))),
        entries_map(s.push((k, v))) == entries_map(s).insert(k, v),
{
    let t = s.push((k, v));
    let n = s.len() as int;
    assert forall|i: int, j: int| 0 <= i < j < t.len() implies (#[trigger] t[i]).0 != (
    #[trigger] t[j]).0 by {
        assert(t[i] == s[i]);
        if j < n {
            assert(t[j] == s[j]);
        }
    }
    assert(t.take(n) =~= s);
    assert(t.take(n + 1) =~= t);
    lemma_rows_at_step(t, n, BlockNumber(0));
}

/// The leading pairs have their keys in the map, and the next pair has not.
pub proof fn lemma_leading<P, Q>(s: Seq<(StarkFelt, P)>, m: Map<StarkFelt, Q>)
    ensures
        leading(s, m) <= s.len(),
        forall|i: int| 0 <= i < leading(s, m) ==> m.contains_key((#[trigger] s[i]).0),
        leading(s, m) < s.len() ==> !m.contains_key(s[leading(s, m) as int].0),
    decreases s.len(),
{
    if s.len() > 0 && m.contains_key(s[0].0) {
        let t = s.drop_first();
        lemma_leading(t, m);
        assert forall|i: int| 0 <= i < leading(s, m) implies
            m.contains_key((#[trigger] s[i]).0) by {
            if i > 0 {
                assert(s[i] == t[i - 1]);
            }
        }
    }
}

/// Pairs by increasing keys are fixed by which pairs there are.
pub proof fn lemma_increasing_unique<P>(x: Seq<(StarkFelt, P)>, y: Seq<(StarkFelt, P)>)
    requires
        increasing_keys(x),
        increasing_keys(y),
        x.to_multiset() == y.to_multiset(),
    ensures
        x == y,
    decreases x.len(),
{
    broadcast use vstd::seq_lib::group_to_multiset_ensures;

    x.to_multiset_ensures();
    y.to_multiset_ensures();
    if x.len() > 0 {
        let n = x.len() - 1;
        assert(x.contains(x[n]));
        assert(y.to_multiset().count(x[n]) > 0);
        assert(y.contains(x[n]));
        assert(y.contains(y[n]));
        assert(x.to_multiset().count(y[n]) > 0);
        assert(x.contains(y[n]));
        let i = choose|i: int| 0 <= i < x.len() && x[i] == y[n];
        let j = choose|j: int| 0 <= j < y.len() && y[j] == x[n];
        assert(x[n] == y[n]);
        assert(x.remove(n) =~= x.drop_last());
        assert(y.remove(n) =~= y.drop_last());
        lemma_increasing_unique(x.drop_last(), y.drop_last());
        assert(x =~= x.drop_last().push(x[n]));
        assert(y =~= y.drop_last().push(y[n]));
    } else {
        assert(x =~= y);
    }
}

/// Pairs by increasing keys are the sorted form of every order of the same pairs.
pub proof fn lemma_by_key<P>(s: Seq<(StarkFelt, P)>, t: Seq<(StarkFelt, P)>)
    requires
        increasing_keys(t),
        t.to_multiset() == s.to_multiset(),
    ensures
        by_key(s) == t,
{
    lemma_increasing_unique(by_key(s), t);
}

} // verus!
