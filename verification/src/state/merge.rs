//! What the merged Cairo 0 definitions of a block hold.
use vstd::prelude::*;

use starknet_api::deprecated_contract_class::ContractClass as DeprecatedContractClass;

use crate::felt::{ClassHash, StarkFelt};
#[allow(unused_imports)]
use crate::felt::felt_lt;
#[allow(unused_imports)]
use crate::index_map::{
    distinct_keys, has_key, increasing_keys, insert_entries, insert_entry, key_index, value_of,
};

#[allow(unused_imports)]
use super::lemmas::lemma_value_of;
#[allow(unused_imports)]
use super::model::{by_key, deprecated_classes};

verus! {

/// After an insertion the keys are distinct, the inserted key has its value, and the other keys
/// are as they were.
proof fn lemma_insert_entry<P>(s: Seq<(StarkFelt, P)>, k: StarkFelt, v: P)
    requires
        distinct_keys(s),
    ensures
        distinct_keys(insert_entry(s, k, v)),
        has_key(insert_entry(s, k, v), k),
        value_of(insert_entry(s, k, v), k) == v,
        forall|h: StarkFelt|
            h != k ==> (#[trigger] has_key(insert_entry(s, k, v), h) <==> has_key(s, h)),
        forall|h: StarkFelt|
            h != k && has_key(s, h) ==> #[trigger] value_of(insert_entry(s, k, v), h) == value_of(
                s,
                h,
            ),
{
    let t = insert_entry(s, k, v);
    let p = if has_key(s, k) {
        key_index(s, k)
    } else {
        s.len() as int
    };
    assert(t[p] == (k, v));
    assert(forall|i: int| 0 <= i < s.len() && i != p ==> #[trigger] t[i] == s[i]);
    assert forall|i: int, j: int| 0 <= i < j < t.len() implies (#[trigger] t[i]).0 != (
    #[trigger] t[j]).0 by {
        if has_key(s, k) {
            assert(s[p].0 == k);
            assert(t[i].0 == s[i].0 && t[j].0 == s[j].0);
        } else {
            assert(s[i].0 != k);
        }
    }
    lemma_value_of(t, p);
    assert forall|h: StarkFelt|
        #![trigger has_key(t, h)]
        #![trigger value_of(t, h)]
        h != k implies (has_key(t, h) <==> has_key(s, h)) && (has_key(s, h) ==> value_of(t, h)
        == value_of(s, h)) by {
        if has_key(s, h) {
            let i = key_index(s, h);
            assert(s[i].0 == h);
            if has_key(s, k) {
                assert(s[p].0 == k);
            }
            assert(t[i] == s[i]);
            lemma_value_of(t, i);
        }
        if has_key(t, h) {
            let i = key_index(t, h);
            assert(t[i].0 == h);
            assert(i != p);
            assert(s[i] == t[i]);
        }
    }
}

/// After the insertion of pairs the keys are those of both sides, and the inserted values count.
proof fn lemma_insert_entries<P>(s: Seq<(StarkFelt, P)>, t: Seq<(StarkFelt, P)>)
    requires
        distinct_keys(s),
        distinct_keys(t),
    ensures
        distinct_keys(insert_entries(s, t)),
        forall|h: StarkFelt| #[trigger]
            has_key(insert_entries(s, t), h) <==> has_key(s, h) || has_key(t, h),
        forall|h: StarkFelt|
            has_key(insert_entries(s, t), h) ==> #[trigger] value_of(insert_entries(s, t), h) == (
            if has_key(t, h) {
                value_of(t, h)
            } else {
                value_of(s, h)
            }),
    decreases t.len(),
{
    if t.len() == 0 {
        assert(forall|h: StarkFelt| !has_key(t, h));
    } else {
        let u = t.drop_last();
        let last = t.last();
        let merged = insert_entries(s, u);
        lemma_insert_entries(s, u);
        lemma_insert_entry(merged, last.0, last.1);
        assert forall|h: StarkFelt| #[trigger] has_key(t, h) <==> has_key(u, h) || h == last.0 by {
            if has_key(u, h) {
                let i = key_index(u, h);
                assert(u[i].0 == h);
                assert(t[i].0 == h);
            }
            if has_key(t, h) && h != last.0 {
                let i = key_index(t, h);
                assert(t[i].0 == h);
                assert(u[i].0 == h);
            }
            assert(t[t.len() - 1].0 == last.0);
        }
        assert forall|h: StarkFelt| has_key(u, h) implies value_of(t, h) == value_of(u, h) by {
            let i = key_index(u, h);
            assert(u[i].0 == h);
            assert(t[i] == u[i]);
            lemma_value_of(t, i);
            lemma_value_of(u, i);
        }
        assert(!has_key(u, last.0)) by {
            if has_key(u, last.0) {
                let i = key_index(u, last.0);
                assert(u[i].0 == last.0);
                assert(t[i].0 == t[t.len() - 1].0);
            }
        }
        lemma_value_of(t, t.len() - 1);
        assert forall|h: StarkFelt| has_key(insert_entries(s, t), h) implies #[trigger] value_of(
            insert_entries(s, t),
            h,
        ) == (if has_key(t, h) {
            value_of(t, h)
        } else {
            value_of(s, h)
        }) by {
            if h != last.0 {
                assert(has_key(merged, h));
            }
        }
    }
}

/// Where a key belongs among increasing keys.
proof fn place_of<P>(t: Seq<(StarkFelt, P)>, k: StarkFelt) -> (p: int)
    requires
        increasing_keys(t),
        !has_key(t, k),
    ensures
        0 <= p <= t.len(),
        forall|i: int| 0 <= i < p ==> felt_lt((#[trigger] t[i]).0, k),
        forall|i: int| p <= i < t.len() ==> felt_lt(k, (#[trigger] t[i]).0),
    decreases t.len(),
{
    if t.len() == 0 {
        0
    } else {
        let u = t.drop_last();
        assert(t[t.len() - 1].0 != k);
        if felt_lt(t.last().0, k) {
            assert forall|i: int| 0 <= i < t.len() implies felt_lt((#[trigger] t[i]).0, k) by {
                assert(t[t.len() - 1] == t.last());
            }
            t.len() as int
        } else {
            assert(!has_key(u, k)) by {
                if has_key(u, k) {
                    let i = key_index(u, k);
                    assert(u[i].0 == k);
                    assert(t[i].0 == k);
                }
            }
            let p = place_of(u, k);
            assert forall|i: int| 0 <= i < p implies felt_lt((#[trigger] t[i]).0, k) by {
                assert(t[i] == u[i]);
            }
            assert forall|i: int| p <= i < t.len() implies felt_lt(k, (#[trigger] t[i]).0) by {
                if i < u.len() {
                    assert(t[i] == u[i]);
                }
            }
            p
        }
    }
}

/// Pairs with distinct keys can be put by increasing keys.
proof fn sorted_form<P>(s: Seq<(StarkFelt, P)>) -> (t: Seq<(StarkFelt, P)>)
    requires
        distinct_keys(s),
    ensures
        increasing_keys(t),
        t.to_multiset() == s.to_multiset(),
    decreases s.len(),
{
    broadcast use vstd::seq_lib::group_to_multiset_ensures;

    if s.len() == 0 {
        s
    } else {
        let u = s.drop_last();
        let last = s.last();
        let t = sorted_form(u);
        assert(!has_key(t, last.0)) by {
            if has_key(t, last.0) {
                let i = key_index(t, last.0);
                assert(t[i].0 == last.0);
                assert(t.contains(t[i]));
                assert(u.to_multiset().count(t[i]) > 0);
                assert(u.contains(t[i]));
                let j = u.index_of(t[i]);
                assert(s[j].0 == s[s.len() - 1].0);
            }
        }
        let p = place_of(t, last.0);
        let r = t.insert(p, last);
        assert forall|i: int, j: int| 0 <= i < j < r.len() implies felt_lt(
            (#[trigger] r[i]).0,
            (#[trigger] r[j]).0,
        ) by {
            if i < p {
                assert(r[i] == t[i]);
            } else if i > p {
                assert(r[i] == t[i - 1]);
            }
            if j < p {
                assert(r[j] == t[j]);
            } else if j > p {
                assert(r[j] == t[j - 1]);
            }
        }
        vstd::seq_lib::to_multiset_insert(t, p, last);
        assert(u.push(last) =~= s);
        vstd::seq_lib::to_multiset_build(u, last);
        r
    }
}

/// The sorted form has the same keys with the same values.
proof fn lemma_by_key_entries<P>(s: Seq<(StarkFelt, P)>)
    requires
        distinct_keys(s),
    ensures
        distinct_keys(by_key(s)),
        increasing_keys(by_key(s)),
        forall|h: StarkFelt| #[trigger] has_key(by_key(s), h) <==> has_key(s, h),
        forall|h: StarkFelt| has_key(s, h) ==> #[trigger] value_of(by_key(s), h) == value_of(s, h),
{
    broadcast use vstd::seq_lib::group_to_multiset_ensures;

    let witness = sorted_form(s);
    let t = by_key(s);
    assert(increasing_keys(t) && t.to_multiset() == s.to_multiset());
    assert(distinct_keys(t));
    assert forall|h: StarkFelt|
        #![trigger has_key(t, h)]
        #![trigger value_of(t, h)]
        has_key(s, h) implies has_key(t, h) && value_of(t, h) == value_of(s, h) by {
        let i = key_index(s, h);
        assert(s[i].0 == h);
        assert(s.contains(s[i]));
        assert(t.to_multiset().count(s[i]) > 0);
        assert(t.contains(s[i]));
        let j = t.index_of(s[i]);
        assert(t[j].0 == h);
        lemma_value_of(t, j);
        lemma_value_of(s, i);
    }
    assert forall|h: StarkFelt| #[trigger] has_key(t, h) implies has_key(s, h) by {
        let j = key_index(t, h);
        assert(t[j].0 == h);
        assert(t.contains(t[j]));
        assert(s.to_multiset().count(t[j]) > 0);
        assert(s.contains(t[j]));
        let i = s.index_of(t[j]);
        assert(s[i].0 == h);
    }
}

/// The definitions that a block brings are those of its deployed contracts and those that it
/// declares. For a class of both kinds the declared definition counts.
pub proof fn lemma_deprecated_classes(
    deployed_definitions: Seq<(ClassHash, DeprecatedContractClass)>,
    declared: Seq<(ClassHash, DeprecatedContractClass)>,
)
    requires
        distinct_keys(deployed_definitions),
        distinct_keys(declared),
    ensures
        ({
            let all = deprecated_classes(deployed_definitions, declared);
            &&& distinct_keys(all)
            &&& deployed_definitions.len() > 0 && declared.len() > 0 ==> increasing_keys(all)
            &&& forall|h: ClassHash| #[trigger]
                has_key(all, h) <==> has_key(deployed_definitions, h) || has_key(declared, h)
            &&& forall|h: ClassHash|
                has_key(all, h) ==> #[trigger] value_of(all, h) == (if has_key(declared, h) {
                    value_of(declared, h)
                } else {
                    value_of(deployed_definitions, h)
                })
        }),
{
    let all = deprecated_classes(deployed_definitions, declared);
    if deployed_definitions.len() == 0 {
        assert(forall|h: ClassHash| !has_key(deployed_definitions, h));
    } else if declared.len() == 0 {
        assert(forall|h: ClassHash| !has_key(declared, h));
    } else {
        let merged = insert_entries(deployed_definitions, declared);
        lemma_insert_entries(deployed_definitions, declared);
        lemma_by_key_entries(merged);
        assert forall|h: ClassHash| has_key(all, h) implies #[trigger] value_of(all, h) == (
        if has_key(declared, h) {
            value_of(declared, h)
        } else {
            value_of(deployed_definitions, h)
        }) by {
            assert(has_key(merged, h));
            assert(value_of(all, h) == value_of(merged, h));
        }
    }
}

} // verus!
