//! What a block changes in the state.
use vstd::prelude::*;

use indexmap::IndexMap;
use starknet_api::deprecated_contract_class::ContractClass as DeprecatedContractClass;
use starknet_api::state::ContractClass;

use crate::felt::{ClassHash, CompiledClassHash, ContractAddress, Nonce, StarkFelt, StorageKey};
use crate::index_map::{
    declared_map_len, deprecated_map_len, felt_map_len, map_get_index, map_insert, map_new,
    storage_map_len,
};
#[allow(unused_imports)]
use crate::index_map::{
    class_entries, declared_entries, deprecated_entries, distinct_keys, felt_entries, has_key,
    storage_entries,
};

verus! {

/// The differences between two states.
pub struct StateDiff {
    pub deployed_contracts: IndexMap<ContractAddress, ClassHash>,
    pub storage_diffs: IndexMap<ContractAddress, IndexMap<StorageKey, StarkFelt>>,
    pub declared_classes: IndexMap<ClassHash, (CompiledClassHash, ContractClass)>,
    pub deprecated_declared_classes: IndexMap<ClassHash, DeprecatedContractClass>,
    pub nonces: IndexMap<ContractAddress, Nonce>,
    pub replaced_classes: IndexMap<ContractAddress, ClassHash>,
}

/// The differences between two states, without the definitions of the declared classes.
pub struct ThinStateDiff {
    pub deployed_contracts: IndexMap<ContractAddress, ClassHash>,
    pub storage_diffs: IndexMap<ContractAddress, IndexMap<StorageKey, StarkFelt>>,
    pub declared_classes: IndexMap<ClassHash, CompiledClassHash>,
    pub deprecated_declared_classes: Vec<ClassHash>,
    pub nonces: IndexMap<ContractAddress, Nonce>,
    pub replaced_classes: IndexMap<ContractAddress, ClassHash>,
}

/// A state diff, each of its maps given by its pairs.
#[verifier::ext_equal]
pub ghost struct StateDiffView {
    pub deployed_contracts: Seq<(ContractAddress, ClassHash)>,
    pub storage_diffs: Seq<(ContractAddress, Seq<(StorageKey, StarkFelt)>)>,
    pub declared_classes: Seq<(ClassHash, (CompiledClassHash, ContractClass))>,
    pub deprecated_declared_classes: Seq<(ClassHash, DeprecatedContractClass)>,
    pub nonces: Seq<(ContractAddress, Nonce)>,
    pub replaced_classes: Seq<(ContractAddress, ClassHash)>,
}

/// A thin state diff, each of its maps given by its pairs.
#[verifier::ext_equal]
pub ghost struct ThinStateDiffView {
    pub deployed_contracts: Seq<(ContractAddress, ClassHash)>,
    pub storage_diffs: Seq<(ContractAddress, Seq<(StorageKey, StarkFelt)>)>,
    pub declared_classes: Seq<(ClassHash, CompiledClassHash)>,
    pub deprecated_declared_classes: Seq<ClassHash>,
    pub nonces: Seq<(ContractAddress, Nonce)>,
    pub replaced_classes: Seq<(ContractAddress, ClassHash)>,
}

impl StateDiffView {
    /// Whether the keys of each map are distinct, as they are in every `StateDiff`.
    pub open spec fn valid(self) -> bool {
        &&& distinct_keys(self.deployed_contracts)
        &&& distinct_keys(self.storage_diffs)
        &&& forall|i: int|
            0 <= i < self.storage_diffs.len() ==> distinct_keys(
                (#[trigger] self.storage_diffs[i]).1,
            )
        &&& distinct_keys(self.declared_classes)
        &&& distinct_keys(self.deprecated_declared_classes)
        &&& distinct_keys(self.nonces)
        &&& distinct_keys(self.replaced_classes)
    }

    /// The definitions of the declared classes.
    pub open spec fn class_definitions(self) -> Seq<(ClassHash, ContractClass)> {
        self.declared_classes.map_values(
            |e: (ClassHash, (CompiledClassHash, ContractClass))| (e.0, e.1.1),
        )
    }

    /// The state diff without the class definitions.
    pub open spec fn thin(self) -> ThinStateDiffView {
        ThinStateDiffView {
            deployed_contracts: self.deployed_contracts,
            storage_diffs: self.storage_diffs,
            declared_classes: self.declared_classes.map_values(
                |e: (ClassHash, (CompiledClassHash, ContractClass))| (e.0, e.1.0),
            ),
            deprecated_declared_classes: self.deprecated_declared_classes.map_values(
                |e: (ClassHash, DeprecatedContractClass)| e.0,
            ),
            nonces: self.nonces,
            replaced_classes: self.replaced_classes,
        }
    }
}

impl View for StateDiff {
    type V = StateDiffView;

    open spec fn view(&self) -> StateDiffView {
        StateDiffView {
            deployed_contracts: felt_entries(self.deployed_contracts),
            storage_diffs: storage_entries(self.storage_diffs),
            declared_classes: declared_entries(self.declared_classes),
            deprecated_declared_classes: deprecated_entries(self.deprecated_declared_classes),
            nonces: felt_entries(self.nonces),
            replaced_classes: felt_entries(self.replaced_classes),
        }
    }
}

impl View for ThinStateDiff {
    type V = ThinStateDiffView;

    open spec fn view(&self) -> ThinStateDiffView {
        ThinStateDiffView {
            deployed_contracts: felt_entries(self.deployed_contracts),
            storage_diffs: storage_entries(self.storage_diffs),
            declared_classes: felt_entries(self.declared_classes),
            deprecated_declared_classes: self.deprecated_declared_classes@,
            nonces: felt_entries(self.nonces),
            replaced_classes: felt_entries(self.replaced_classes),
        }
    }
}

/// A map with the pairs of another one.
fn copy_felt_map(m: &IndexMap<StarkFelt, StarkFelt>) -> (r: IndexMap<StarkFelt, StarkFelt>)
    ensures
        felt_entries(r) == felt_entries(*m),
{
    let n: usize = felt_map_len(m);
    let mut r: IndexMap<StarkFelt, StarkFelt> = map_new();
    let mut i: usize = 0;
    while i < n
        invariant
            i <= n,
            n == felt_entries(*m).len(),
            distinct_keys(felt_entries(*m)),
            felt_entries(r) == felt_entries(*m).take(i as int),
        decreases n - i,
    {
        let (k, v) = map_get_index(m, i).unwrap();
        let ghost before = felt_entries(r);
        let _ = map_insert(&mut r, *k, *v);
        proof {
            lemma_fresh_key(felt_entries(*m), i as int);
            assert(before.push((*k, *v)) =~= felt_entries(*m).take(i + 1));
        }
        i = i + 1;
    }
    assert(felt_entries(*m).take(n as int) =~= felt_entries(*m));
    r
}

/// A map of maps with the pairs of another one.
fn copy_storage_map(m: &IndexMap<StarkFelt, IndexMap<StarkFelt, StarkFelt>>) -> (r: IndexMap<
    StarkFelt,
    IndexMap<StarkFelt, StarkFelt>,
>)
    ensures
        storage_entries(r) == storage_entries(*m),
{
    let n: usize = storage_map_len(m);
    let mut r: IndexMap<StarkFelt, IndexMap<StarkFelt, StarkFelt>> = map_new();
    let mut i: usize = 0;
    while i < n
        invariant
            i <= n,
            n == storage_entries(*m).len(),
            distinct_keys(storage_entries(*m)),
            storage_entries(r) == storage_entries(*m).take(i as int),
        decreases n - i,
    {
        let (k, v) = map_get_index(m, i).unwrap();
        let ghost before = storage_entries(r);
        let _ = map_insert(&mut r, *k, copy_felt_map(v));
        proof {
            lemma_fresh_key(storage_entries(*m), i as int);
            assert(before.push((*k, felt_entries(*v))) =~= storage_entries(*m).take(i + 1));
        }
        i = i + 1;
    }
    assert(storage_entries(*m).take(n as int) =~= storage_entries(*m));
    r
}

/// In pairs with distinct keys, the key at a position is not among the keys before it.
pub proof fn lemma_fresh_key<P>(s: Seq<(StarkFelt, P)>, i: int)
    requires
        distinct_keys(s),
        0 <= i < s.len(),
    ensures
        !has_key(s.take(i), s[i].0),
{
    assert forall|j: int| 0 <= j < i implies (#[trigger] s.take(i)[j]).0 != s[i].0 by {
        assert(s.take(i)[j] == s[j]);
    }
}

impl Clone for ThinStateDiff {
    /// The same differences once more.
    fn clone(&self) -> (r: Self)
        ensures
            r@ == self@,
    {
        let mut deprecated_declared_classes: Vec<ClassHash> = Vec::new();
        let n: usize = self.deprecated_declared_classes.len();
        let mut i: usize = 0;
        while i < n
            invariant
                i <= n,
                n == self.deprecated_declared_classes.len(),
                deprecated_declared_classes@ == self.deprecated_declared_classes@.take(i as int),
            decreases n - i,
        {
            deprecated_declared_classes.push(self.deprecated_declared_classes[i]);
            proof {
                assert(deprecated_declared_classes@ =~= self.deprecated_declared_classes@.take(
                    i + 1,
                ));
            }
            i = i + 1;
        }
        assert(self.deprecated_declared_classes@.take(n as int)
            =~= self.deprecated_declared_classes@);
        ThinStateDiff {
            deployed_contracts: copy_felt_map(&self.deployed_contracts),
            storage_diffs: copy_storage_map(&self.storage_diffs),
            declared_classes: copy_felt_map(&self.declared_classes),
            deprecated_declared_classes,
            nonces: copy_felt_map(&self.nonces),
            replaced_classes: copy_felt_map(&self.replaced_classes),
        }
    }
}

impl ThinStateDiff {
    /// Splits a state diff into what it changes, the definitions of its declared classes, and
    /// those of its deprecated ones.
    pub fn from_state_diff(diff: StateDiff) -> (r: (
        Self,
        IndexMap<ClassHash, ContractClass>,
        IndexMap<ClassHash, DeprecatedContractClass>,
    ))
        ensures
            r.0@ == diff@.thin(),
            class_entries(r.1) == diff@.class_definitions(),
            deprecated_entries(r.2) == diff@.deprecated_declared_classes,
            r.0@.declared_classes.len() == diff@.declared_classes.len(),
            forall|i: int|
                0 <= i < diff@.declared_classes.len() ==> #[trigger] r.0@.declared_classes[i] == (
                    diff@.declared_classes[i].0,
                    diff@.declared_classes[i].1.0,
                ),
            class_entries(r.1).len() == diff@.declared_classes.len(),
            forall|i: int|
                0 <= i < diff@.declared_classes.len() ==> #[trigger] class_entries(r.1)[i] == (
                    diff@.declared_classes[i].0,
                    diff@.declared_classes[i].1.1,
                ),
            distinct_keys(diff@.declared_classes),
            distinct_keys(diff@.deprecated_declared_classes),
    {
        let ghost declared = declared_entries(diff.declared_classes);
        let ghost deprecated = deprecated_entries(diff.deprecated_declared_classes);
        let ghost thin = diff@.thin();
        let ghost definitions = diff@.class_definitions();
        let n: usize = declared_map_len(&diff.declared_classes);
        let mut compiled_hashes: IndexMap<ClassHash, CompiledClassHash> = map_new();
        let mut classes: IndexMap<ClassHash, ContractClass> = map_new();
        let mut i: usize = 0;
        while i < n
            invariant
                i <= n,
                n == declared.len(),
                declared == declared_entries(diff.declared_classes),
                distinct_keys(declared),
                thin == diff@.thin(),
                definitions == diff@.class_definitions(),
                felt_entries(compiled_hashes) == thin.declared_classes.take(i as int),
                class_entries(classes) == definitions.take(i as int),
            decreases n - i,
        {
            let (class_hash, value) = map_get_index(&diff.declared_classes, i).unwrap();
            let ghost hashes_before = felt_entries(compiled_hashes);
            let ghost classes_before = class_entries(classes);
            let _ = map_insert(&mut compiled_hashes, *class_hash, value.0);
            let _ = map_insert(&mut classes, *class_hash, value.1.clone());
            proof {
                lemma_fresh_key(thin.declared_classes, i as int);
                lemma_fresh_key(definitions, i as int);
                assert(hashes_before.push(thin.declared_classes[i as int])
                    =~= thin.declared_classes.take(i + 1));
                assert(classes_before.push(definitions[i as int]) =~= definitions.take(i + 1));
            }
            i = i + 1;
        }
        let m: usize = deprecated_map_len(&diff.deprecated_declared_classes);
        let mut deprecated_hashes: Vec<ClassHash> = Vec::new();
        let mut j: usize = 0;
        while j < m
            invariant
                j <= m,
                m == deprecated.len(),
                deprecated == deprecated_entries(diff.deprecated_declared_classes),
                thin == diff@.thin(),
                deprecated_hashes@ == thin.deprecated_declared_classes.take(j as int),
            decreases m - j,
        {
            let (class_hash, _) = map_get_index(&diff.deprecated_declared_classes, j).unwrap();
            deprecated_hashes.push(*class_hash);
            proof {
                assert(deprecated_hashes@ =~= thin.deprecated_declared_classes.take(j + 1));
            }
            j = j + 1;
        }
        proof {
            assert(thin.declared_classes.take(n as int) =~= thin.declared_classes);
            assert(definitions.take(n as int) =~= definitions);
            assert(thin.deprecated_declared_classes.take(m as int)
                =~= thin.deprecated_declared_classes);
        }
        (
            ThinStateDiff {
                deployed_contracts: diff.deployed_contracts,
                storage_diffs: diff.storage_diffs,
                declared_classes: compiled_hashes,
                deprecated_declared_classes: deprecated_hashes,
                nonces: diff.nonces,
                replaced_classes: diff.replaced_classes,
            },
            classes,
            diff.deprecated_declared_classes,
        )
    }
}

/// Without its definitions a state diff keeps every change, position by position, with the hashes
/// of the compiled classes; its definitions are those that it pairs with the class hashes.
pub proof fn law_thin_state_diff_keeps_changes(diff: StateDiffView)
    ensures
        diff.thin().deployed_contracts == diff.deployed_contracts,
        diff.thin().storage_diffs == diff.storage_diffs,
        diff.thin().nonces == diff.nonces,
        diff.thin().replaced_classes == diff.replaced_classes,
        diff.thin().declared_classes.len() == diff.declared_classes.len(),
        diff.thin().deprecated_declared_classes.len() == diff.deprecated_declared_classes.len(),
        diff.class_definitions().len() == diff.declared_classes.len(),
        forall|i: int|
            0 <= i < diff.declared_classes.len() ==> {
                &&& #[trigger] diff.thin().declared_classes[i] == (
                    diff.declared_classes[i].0,
                    diff.declared_classes[i].1.0,
                )
                &&& #[trigger] diff.class_definitions()[i] == (
                    diff.declared_classes[i].0,
                    diff.declared_classes[i].1.1,
                )
            },
        forall|i: int|
            0 <= i < diff.deprecated_declared_classes.len()
                ==> #[trigger] diff.thin().deprecated_declared_classes[i]
                == diff.deprecated_declared_classes[i].0,
{
}

/// A state diff is read field by field, each map by its own pairs.
pub proof fn law_state_diff_fields(diff: StateDiff, thin: ThinStateDiff)
    ensures
        diff@.deployed_contracts == felt_entries(diff.deployed_contracts),
        diff@.storage_diffs == storage_entries(diff.storage_diffs),
        diff@.declared_classes == declared_entries(diff.declared_classes),
        diff@.deprecated_declared_classes == deprecated_entries(diff.deprecated_declared_classes),
        diff@.nonces == felt_entries(diff.nonces),
        diff@.replaced_classes == felt_entries(diff.replaced_classes),
        thin@.deployed_contracts == felt_entries(thin.deployed_contracts),
        thin@.storage_diffs == storage_entries(thin.storage_diffs),
        thin@.declared_classes == felt_entries(thin.declared_classes),
        thin@.deprecated_declared_classes == thin.deprecated_declared_classes@,
        thin@.nonces == felt_entries(thin.nonces),
        thin@.replaced_classes == felt_entries(thin.replaced_classes),
{
}

/// A state diff is valid exactly if no map of it has a key twice.
pub proof fn law_valid_state_diffs(diff: StateDiffView)
    ensures
        diff.valid() <==> {
            &&& forall|i: int, j: int|
                0 <= i < j < diff.deployed_contracts.len() ==> (
                #[trigger] diff.deployed_contracts[i]).0 != (
                #[trigger] diff.deployed_contracts[j]).0
            &&& forall|i: int, j: int|
                0 <= i < j < diff.storage_diffs.len() ==> (#[trigger] diff.storage_diffs[i]).0 != (
                #[trigger] diff.storage_diffs[j]).0
            &&& forall|i: int, j: int, k: int|
                0 <= i < diff.storage_diffs.len() && 0 <= j < k < diff.storage_diffs[i].1.len()
                    ==> (#[trigger] diff.storage_diffs[i].1[j]).0 != (
                #[trigger] diff.storage_diffs[i].1[k]).0
            &&& forall|i: int, j: int|
                0 <= i < j < diff.declared_classes.len() ==> (#[trigger] diff.declared_classes[i]).0
                    != (#[trigger] diff.declared_classes[j]).0
            &&& forall|i: int, j: int|
                0 <= i < j < diff.deprecated_declared_classes.len() ==> (
                #[trigger] diff.deprecated_declared_classes[i]).0 != (
                #[trigger] diff.deprecated_declared_classes[j]).0
            &&& forall|i: int, j: int|
                0 <= i < j < diff.nonces.len() ==> (#[trigger] diff.nonces[i]).0 != (
                #[trigger] diff.nonces[j]).0
            &&& forall|i: int, j: int|
                0 <= i < j < diff.replaced_classes.len() ==> (#[trigger] diff.replaced_classes[i]).0
                    != (#[trigger] diff.replaced_classes[j]).0
        },
{
}

} // verus!
