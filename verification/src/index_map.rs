//! Insertion-ordered maps keyed by field elements: `indexmap::IndexMap`.
use vstd::prelude::*;

use cairo_lang_starknet::casm_contract_class::CasmContractClass;
use indexmap::IndexMap;
use starknet_api::deprecated_contract_class::ContractClass as DeprecatedContractClass;
use starknet_api::state::ContractClass;

use crate::felt::StarkFelt;
#[allow(unused_imports)]
use crate::felt::felt_lt;

verus! {

/// `indexmap::IndexMap`.
#[verifier::external_type_specification]
#[verifier::external_body]
#[verifier::reject_recursive_types(K)]
#[verifier::reject_recursive_types(V)]
#[verifier::reject_recursive_types(S)]
pub struct ExIndexMap<K, V, S>(indexmap::IndexMap<K, V, S>);

/// The key-value pairs of a map from field elements to field elements, in the map's order.
pub uninterp spec fn felt_entries(m: IndexMap<StarkFelt, StarkFelt>) -> Seq<(StarkFelt, StarkFelt)>;

/// The key-value pairs of a map of maps, in the map's order, each inner map given by its pairs.
pub uninterp spec fn storage_entries(m: IndexMap<StarkFelt, IndexMap<StarkFelt, StarkFelt>>) -> Seq<
    (StarkFelt, Seq<(StarkFelt, StarkFelt)>),
>;

/// The key-value pairs of a map to hashes with class definitions, in the map's order.
pub uninterp spec fn declared_entries(m: IndexMap<StarkFelt, (StarkFelt, ContractClass)>) -> Seq<
    (StarkFelt, (StarkFelt, ContractClass)),
>;

/// The key-value pairs of a map to class definitions, in the map's order.
pub uninterp spec fn class_entries(m: IndexMap<StarkFelt, ContractClass>) -> Seq<
    (StarkFelt, ContractClass),
>;

/// The key-value pairs of a map to Cairo 0 class definitions, in the map's order.
pub uninterp spec fn deprecated_entries(m: IndexMap<StarkFelt, DeprecatedContractClass>) -> Seq<
    (StarkFelt, DeprecatedContractClass),
>;

/// The key-value pairs of a map to compiled classes, in the map's order.
pub uninterp spec fn casm_entries(m: IndexMap<StarkFelt, CasmContractClass>) -> Seq<
    (StarkFelt, CasmContractClass),
>;

/// Whether no two pairs have the same key.
pub open spec fn distinct_keys<P>(s: Seq<(StarkFelt, P)>) -> bool {
    forall|i: int, j: int| 0 <= i < j < s.len() ==> (#[trigger] s[i]).0 != (#[trigger] s[j]).0
}

/// Whether the keys are strictly increasing.
pub open spec fn increasing_keys<P>(s: Seq<(StarkFelt, P)>) -> bool {
    forall|i: int, j: int| 0 <= i < j < s.len() ==> felt_lt((#[trigger] s[i]).0, (#[trigger] s[j]).0)
}

/// Whether one of the pairs has the key.
pub open spec fn has_key<P>(s: Seq<(StarkFelt, P)>, k: StarkFelt) -> bool {
    exists|i: int| 0 <= i < s.len() && (#[trigger] s[i]).0 == k
}

/// The position of a pair with the key.
pub open spec fn key_index<P>(s: Seq<(StarkFelt, P)>, k: StarkFelt) -> int
    recommends
        has_key(s, k),
{
    choose|i: int| 0 <= i < s.len() && (#[trigger] s[i]).0 == k
}

/// The value of a pair with the key.
pub open spec fn value_of<P>(s: Seq<(StarkFelt, P)>, k: StarkFelt) -> P
    recommends
        has_key(s, k),
{
    s[key_index(s, k)].1
}

/// The pairs after an insertion: a known key keeps its place and gets the value, a new pair comes
/// last.
pub open spec fn insert_entry<P>(s: Seq<(StarkFelt, P)>, k: StarkFelt, v: P) -> Seq<(StarkFelt, P)> {
    if has_key(s, k) {
        s.update(key_index(s, k), (k, v))
    } else {
        s.push((k, v))
    }
}

/// The pairs of `s` after the insertion of the pairs of `t`, one after the other.
pub open spec fn insert_entries<P>(s: Seq<(StarkFelt, P)>, t: Seq<(StarkFelt, P)>) -> Seq<
    (StarkFelt, P),
>
    decreases t.len(),
{
    if t.len() == 0 {
        s
    } else {
        insert_entry(insert_entries(s, t.drop_last()), t.last().0, t.last().1)
    }
}

/// A type whose values such maps hold. `map_new`, `map_get_index` and `map_insert` say what they do
/// over `entries`, and this is true only because `entries` of each of the six types below is the
/// name above for the pairs of its maps. Another type may implement this trait only with such a
/// name: with any other `entries` those contracts would be false.
pub(crate) trait MapValue: Sized {
    /// What a value stands for.
    type Plain;

    /// What the value stands for.
    spec fn plain(&self) -> Self::Plain;

    /// The key-value pairs of a map to such values.
    spec fn entries(m: IndexMap<StarkFelt, Self>) -> Seq<(StarkFelt, Self::Plain)>;
}

impl MapValue for StarkFelt {
    type Plain = StarkFelt;

    open spec fn plain(&self) -> StarkFelt {
        *self
    }

    open spec fn entries(m: IndexMap<StarkFelt, StarkFelt>) -> Seq<(StarkFelt, StarkFelt)> {
        felt_entries(m)
    }
}

impl MapValue for IndexMap<StarkFelt, StarkFelt> {
    type Plain = Seq<(StarkFelt, StarkFelt)>;

    open spec fn plain(&self) -> Seq<(StarkFelt, StarkFelt)> {
        felt_entries(*self)
    }

    open spec fn entries(m: IndexMap<StarkFelt, IndexMap<StarkFelt, StarkFelt>>) -> Seq<
        (StarkFelt, Seq<(StarkFelt, StarkFelt)>),
    > {
        storage_entries(m)
    }
}

impl MapValue for (StarkFelt, ContractClass) {
    type Plain = (StarkFelt, ContractClass);

    open spec fn plain(&self) -> (StarkFelt, ContractClass) {
        *self
    }

    open spec fn entries(m: IndexMap<StarkFelt, (StarkFelt, ContractClass)>) -> Seq<
        (StarkFelt, (StarkFelt, ContractClass)),
    > {
        declared_entries(m)
    }
}

impl MapValue for ContractClass {
    type Plain = ContractClass;

    open spec fn plain(&self) -> ContractClass {
        *self
    }

    open spec fn entries(m: IndexMap<StarkFelt, ContractClass>) -> Seq<(StarkFelt, ContractClass)> {
        class_entries(m)
    }
}

impl MapValue for DeprecatedContractClass {
    type Plain = DeprecatedContractClass;

    open spec fn plain(&self) -> DeprecatedContractClass {
        *self
    }

    open spec fn entries(m: IndexMap<StarkFelt, DeprecatedContractClass>) -> Seq<
        (StarkFelt, DeprecatedContractClass),
    > {
        deprecated_entries(m)
    }
}

impl MapValue for CasmContractClass {
    type Plain = CasmContractClass;

    open spec fn plain(&self) -> CasmContractClass {
        *self
    }

    open spec fn entries(m: IndexMap<StarkFelt, CasmContractClass>) -> Seq<
        (StarkFelt, CasmContractClass),
    > {
        casm_entries(m)
    }
}

/// `IndexMap::new`: a map without pairs.
#[verifier::external_body]
pub(crate) fn map_new<V: MapValue>() -> (r: IndexMap<StarkFelt, V>)
    ensures
        V::entries(r) == Seq::<(StarkFelt, V::Plain)>::empty(),
{
    IndexMap::new()
}

/// `IndexMap::new` of a map to compiled classes: a map without pairs.
#[verifier::external_body]
pub(crate) fn casm_map_new() -> (r: IndexMap<StarkFelt, CasmContractClass>)
    ensures
        casm_entries(r) == Seq::<(StarkFelt, CasmContractClass)>::empty(),
{
    IndexMap::new()
}

/// `IndexMap::len` of a map to field elements: the number of pairs, whose keys are distinct.
#[verifier::external_body]
pub(crate) fn felt_map_len(m: &IndexMap<StarkFelt, StarkFelt>) -> (r: usize)
    ensures
        r == felt_entries(*m).len(),
        forall|i: int, j: int|
            0 <= i < j < r ==> (#[trigger] felt_entries(*m)[i]).0 != (#[trigger] felt_entries(
                *m,
            )[j]).0,
{
    m.len()
}

/// `IndexMap::len` of a map to maps: the number of pairs, whose keys are distinct.
#[verifier::external_body]
pub(crate) fn storage_map_len(m: &IndexMap<StarkFelt, IndexMap<StarkFelt, StarkFelt>>) -> (r: usize)
    ensures
        r == storage_entries(*m).len(),
        forall|i: int, j: int|
            0 <= i < j < r ==> (#[trigger] storage_entries(*m)[i]).0 != (#[trigger] storage_entries(
                *m,
            )[j]).0,
{
    m.len()
}

/// `IndexMap::len` of a map to hashes with definitions: the number of pairs, whose keys are
/// distinct.
#[verifier::external_body]
pub(crate) fn declared_map_len(m: &IndexMap<StarkFelt, (StarkFelt, ContractClass)>) -> (r: usize)
    ensures
        r == declared_entries(*m).len(),
        forall|i: int, j: int|
            0 <= i < j < r ==> (#[trigger] declared_entries(*m)[i]).0 != (
            #[trigger] declared_entries(*m)[j]).0,
{
    m.len()
}

/// `IndexMap::len` of a map to definitions: the number of pairs, whose keys are distinct.
#[verifier::external_body]
pub(crate) fn class_map_len(m: &IndexMap<StarkFelt, ContractClass>) -> (r: usize)
    ensures
        r == class_entries(*m).len(),
        forall|i: int, j: int|
            0 <= i < j < r ==> (#[trigger] class_entries(*m)[i]).0 != (#[trigger] class_entries(
                *m,
            )[j]).0,
{
    m.len()
}

/// `IndexMap::len` of a map to Cairo 0 definitions: the number of pairs, whose keys are distinct.
#[verifier::external_body]
pub(crate) fn deprecated_map_len(m: &IndexMap<StarkFelt, DeprecatedContractClass>) -> (r: usize)
    ensures
        r == deprecated_entries(*m).len(),
        forall|i: int, j: int|
            0 <= i < j < r ==> (#[trigger] deprecated_entries(*m)[i]).0 != (
            #[trigger] deprecated_entries(*m)[j]).0,
{
    m.len()
}

/// `IndexMap::get_index`: the pair at a position of the map's order.
#[verifier::external_body]
pub(crate) fn map_get_index<V: MapValue>(m: &IndexMap<StarkFelt, V>, i: usize) -> (r: Option<
    (&StarkFelt, &V),
>)
    ensures
        r is Some <==> i < V::entries(*m).len(),
        r matches Some((k, v)) ==> *k == V::entries(*m)[i as int].0 && v.plain() == V::entries(
            *m,
        )[i as int].1,
{
    m.get_index(i)
}

/// `IndexMap::insert`: a known key keeps its place and gets the value, a new pair comes last. The
/// value that the key had is returned.
#[verifier::external_body]
pub(crate) fn map_insert<V: MapValue>(m: &mut IndexMap<StarkFelt, V>, k: StarkFelt, v: V) -> (r:
    Option<V>)
    ensures
        V::entries(*final(m)) == insert_entry(V::entries(*old(m)), k, v.plain()),
        r is Some <==> has_key(V::entries(*old(m)), k),
        r matches Some(u) ==> u.plain() == value_of(V::entries(*old(m)), k),
{
    m.insert(k, v)
}

/// `Extend::extend` of an `IndexMap`, by another one: the pairs of the other are inserted in its
/// order.
#[verifier::external_body]
pub(crate) fn deprecated_map_extend(
    m: &mut IndexMap<StarkFelt, DeprecatedContractClass>,
    other: IndexMap<StarkFelt, DeprecatedContractClass>,
)
    ensures
        deprecated_entries(*final(m)) == insert_entries(
            deprecated_entries(*old(m)),
            deprecated_entries(other),
        ),
{
    m.extend(other)
}

/// `IndexMap::sort_unstable_keys`: the same pairs, by increasing keys. Pairs of integers are
/// ordered by the first, then by the second.
#[verifier::external_body]
pub(crate) fn deprecated_map_sort_unstable_keys(m: &mut IndexMap<StarkFelt, DeprecatedContractClass>)
    ensures
        deprecated_entries(*final(m)).to_multiset() == deprecated_entries(*old(m)).to_multiset(),
        increasing_keys(deprecated_entries(*final(m))),
{
    m.sort_unstable_keys()
}

} // verus!
