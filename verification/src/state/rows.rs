//! What adding and taking back a block does to each table, row by row, told from the positions of
//! the state diff.
use vstd::prelude::*;

use starknet_api::deprecated_contract_class::ContractClass as DeprecatedContractClass;

use crate::block::BlockNumber;
use crate::felt::{ClassHash, ContractAddress, StarkFelt, StorageKey};
#[allow(unused_imports)]
use crate::index_map::{has_key, key_index, value_of};
use crate::state_diff::StateDiffView;
use crate::storage::{MarkerKind, StateView};

#[allow(unused_imports)]
use super::laws::lemma_diff_keys;
#[allow(unused_imports)]
use super::lemmas::{lemma_leading, lemma_value_of};
#[allow(unused_imports)]
use super::merge::lemma_deprecated_classes;
#[allow(unused_imports)]
use super::model::{candidate_classes, deprecated_classes, entries_map, leading, with_value};

verus! {

/// Pairs with distinct keys, read as a map: each key has the value beside it, and there is no other
/// key.
pub proof fn law_pairs_as_map<P>(s: Seq<(StarkFelt, P)>)
    requires
        forall|i: int, j: int| 0 <= i < j < s.len() ==> (#[trigger] s[i]).0 != (#[trigger] s[j]).0,
    ensures
        forall|i: int|
            0 <= i < s.len() ==> entries_map(s).contains_key((#[trigger] s[i]).0) && entries_map(
                s,
            )[s[i].0] == s[i].1,
        forall|k: StarkFelt| #[trigger]
            entries_map(s).contains_key(k) ==> exists|i: int|
                0 <= i < s.len() && (#[trigger] s[i]).0 == k,
{
    assert forall|i: int| 0 <= i < s.len() implies entries_map(s).contains_key(
        (#[trigger] s[i]).0,
    ) && entries_map(s)[s[i].0] == s[i].1 by {
        lemma_value_of(s, i);
    }
}

/// The class of every contract that the block deploys or whose class it replaces is in the row of
/// the contract and the block. A replacement counts. No other row of a contract's class changes.
pub proof fn law_append_writes_class_hashes(
    s: StateView,
    b: BlockNumber,
    diff: StateDiffView,
    definitions: Seq<(ClassHash, DeprecatedContractClass)>,
)
    requires
        diff.valid(),
    ensures
        ({
            let t = s.append(b, diff, definitions);
            let replaced = diff.replaced_classes;
            let deployed = diff.deployed_contracts;
            &&& forall|i: int|
                0 <= i < replaced.len() ==> t.deployed_contracts.contains_key(
                    ((#[trigger] replaced[i]).0, b),
                ) && t.deployed_contracts[(replaced[i].0, b)] == replaced[i].1
            &&& forall|i: int|
                0 <= i < deployed.len() && (forall|j: int|
                    0 <= j < replaced.len() ==> (#[trigger] replaced[j]).0 != deployed[i].0)
                    ==> t.deployed_contracts.contains_key(((#[trigger] deployed[i]).0, b))
                    && t.deployed_contracts[(deployed[i].0, b)] == deployed[i].1
            &&& forall|a: ContractAddress, c: BlockNumber|
                c != b || ((forall|j: int|
                    0 <= j < replaced.len() ==> (#[trigger] replaced[j]).0 != a) && (forall|j: int|
                    0 <= j < deployed.len() ==> (#[trigger] deployed[j]).0 != a)) ==> {
                    &&& #[trigger] t.deployed_contracts.contains_key((a, c))
                        <==> s.deployed_contracts.contains_key((a, c))
                    &&& s.deployed_contracts.contains_key((a, c)) ==> t.deployed_contracts[(a, c)]
                        == s.deployed_contracts[(a, c)]
                }
        }),
{
    let t = s.append(b, diff, definitions);
    let replaced = diff.replaced_classes;
    let deployed = diff.deployed_contracts;
    assert forall|i: int| 0 <= i < replaced.len() implies t.deployed_contracts.contains_key(
        ((#[trigger] replaced[i]).0, b),
    ) && t.deployed_contracts[(replaced[i].0, b)] == replaced[i].1 by {
        lemma_value_of(replaced, i);
    }
    assert forall|i: int|
        0 <= i < deployed.len() && (forall|j: int|
            0 <= j < replaced.len() ==> (#[trigger] replaced[j]).0 != deployed[i].0) implies
        t.deployed_contracts.contains_key(((#[trigger] deployed[i]).0, b))
        && t.deployed_contracts[(deployed[i].0, b)] == deployed[i].1 by {
        lemma_value_of(deployed, i);
        assert(!has_key(replaced, deployed[i].0));
    }
}

/// The nonce of every contract that the block gives one is in the row of the contract and the
/// block, and zero is there for every other contract that it deploys. No other nonce changes.
pub proof fn law_append_writes_nonces(
    s: StateView,
    b: BlockNumber,
    diff: StateDiffView,
    definitions: Seq<(ClassHash, DeprecatedContractClass)>,
)
    requires
        diff.valid(),
    ensures
        ({
            let t = s.append(b, diff, definitions);
            let nonces = diff.nonces;
            let deployed = diff.deployed_contracts;
            &&& forall|i: int|
                0 <= i < nonces.len() ==> t.nonces.contains_key(((#[trigger] nonces[i]).0, b))
                    && t.nonces[(nonces[i].0, b)] == nonces[i].1
            &&& forall|i: int|
                0 <= i < deployed.len() && (forall|j: int|
                    0 <= j < nonces.len() ==> (#[trigger] nonces[j]).0 != deployed[i].0)
                    ==> t.nonces.contains_key(((#[trigger] deployed[i]).0, b)) && t.nonces[(
                    deployed[i].0,
                    b,
                )] == (0u128, 0u128)
            &&& forall|a: ContractAddress, c: BlockNumber|
                c != b || ((forall|j: int|
                    0 <= j < nonces.len() ==> (#[trigger] nonces[j]).0 != a) && (forall|j: int|
                    0 <= j < deployed.len() ==> (#[trigger] deployed[j]).0 != a)) ==> {
                    &&& #[trigger] t.nonces.contains_key((a, c)) <==> s.nonces.contains_key((a, c))
                    &&& s.nonces.contains_key((a, c)) ==> t.nonces[(a, c)] == s.nonces[(a, c)]
                }
        }),
{
    let t = s.append(b, diff, definitions);
    let nonces = diff.nonces;
    let deployed = diff.deployed_contracts;
    lemma_diff_keys(diff, b);
    assert forall|i: int| 0 <= i < nonces.len() implies t.nonces.contains_key(
        ((#[trigger] nonces[i]).0, b),
    ) && t.nonces[(nonces[i].0, b)] == nonces[i].1 by {
        lemma_value_of(nonces, i);
    }
    assert forall|i: int|
        0 <= i < deployed.len() && (forall|j: int|
            0 <= j < nonces.len() ==> (#[trigger] nonces[j]).0 != deployed[i].0) implies
        t.nonces.contains_key(((#[trigger] deployed[i]).0, b)) && t.nonces[(deployed[i].0, b)] == (
    0u128, 0u128) by {
        assert(has_key(deployed, deployed[i].0));
        assert(!has_key(nonces, deployed[i].0));
        assert(has_key(with_value(deployed, (0u128, 0u128)), deployed[i].0));
        assert(value_of(with_value(deployed, (0u128, 0u128)), deployed[i].0) == (0u128, 0u128));
    }
    assert forall|a: ContractAddress, c: BlockNumber|
        c != b || ((forall|j: int| 0 <= j < nonces.len() ==> (#[trigger] nonces[j]).0 != a) && (
        forall|j: int| 0 <= j < deployed.len() ==> (#[trigger] deployed[j]).0 != a)) implies {
        &&& #[trigger] t.nonces.contains_key((a, c)) <==> s.nonces.contains_key((a, c))
        &&& s.nonces.contains_key((a, c)) ==> t.nonces[(a, c)] == s.nonces[(a, c)]
    } by {
        if c == b {
            assert(!has_key(nonces, a));
            assert(!has_key(deployed, a));
            assert(!has_key(with_value(deployed, (0u128, 0u128)), a));
        }
    }
}

/// Every value that the block sets is in the row of its contract, its key and the block. No other
/// value changes.
pub proof fn law_append_writes_storage(
    s: StateView,
    b: BlockNumber,
    diff: StateDiffView,
    definitions: Seq<(ClassHash, DeprecatedContractClass)>,
)
    requires
        diff.valid(),
    ensures
        ({
            let t = s.append(b, diff, definitions);
            let diffs = diff.storage_diffs;
            &&& forall|i: int, j: int|
                0 <= i < diffs.len() && 0 <= j < diffs[i].1.len() ==> {
                    &&& t.contract_storage.contains_key((diffs[i].0, (#[trigger] diffs[i].1[j]).0, b))
                    &&& t.contract_storage[(diffs[i].0, diffs[i].1[j].0, b)] == diffs[i].1[j].1
                }
            &&& forall|a: ContractAddress, k: StorageKey, c: BlockNumber|
                c != b || (forall|i: int, j: int|
                    0 <= i < diffs.len() && 0 <= j < diffs[i].1.len() && diffs[i].0 == a ==> (
                    #[trigger] diffs[i].1[j]).0 != k) ==> {
                    &&& #[trigger] t.contract_storage.contains_key((a, k, c))
                        <==> s.contract_storage.contains_key((a, k, c))
                    &&& s.contract_storage.contains_key((a, k, c)) ==> t.contract_storage[(a, k, c)]
                        == s.contract_storage[(a, k, c)]
                }
        }),
{
    let t = s.append(b, diff, definitions);
    let diffs = diff.storage_diffs;
    assert forall|i: int, j: int|
        0 <= i < diffs.len() && 0 <= j < diffs[i].1.len() implies
        t.contract_storage.contains_key((diffs[i].0, (#[trigger] diffs[i].1[j]).0, b))
        && t.contract_storage[(diffs[i].0, diffs[i].1[j].0, b)] == diffs[i].1[j].1 by {
        lemma_value_of(diffs, i);
        lemma_value_of(diffs[i].1, j);
    }
    assert forall|a: ContractAddress, k: StorageKey, c: BlockNumber|
        c != b || (forall|i: int, j: int|
            0 <= i < diffs.len() && 0 <= j < diffs[i].1.len() && diffs[i].0 == a ==> (
            #[trigger] diffs[i].1[j]).0 != k) implies {
        &&& #[trigger] t.contract_storage.contains_key((a, k, c))
            <==> s.contract_storage.contains_key((a, k, c))
        &&& s.contract_storage.contains_key((a, k, c)) ==> t.contract_storage[(a, k, c)]
            == s.contract_storage[(a, k, c)]
    } by {
        if c == b && has_key(diffs, a) && has_key(value_of(diffs, a), k) {
            let i = key_index(diffs, a);
            assert(diffs[i].0 == a);
            let j = key_index(diffs[i].1, k);
            assert(diffs[i].1[j].0 == k);
        }
    }
}

/// Every Cairo 1 class that the block declares is stored with the very definition that the state
/// diff pairs with its hash, and with the block. Other classes stay as they were.
pub proof fn law_append_writes_classes(
    s: StateView,
    b: BlockNumber,
    diff: StateDiffView,
    definitions: Seq<(ClassHash, DeprecatedContractClass)>,
)
    requires
        diff.valid(),
    ensures
        ({
            let t = s.append(b, diff, definitions);
            let declared = diff.declared_classes;
            &&& forall|i: int|
                0 <= i < declared.len() ==> {
                    &&& t.declared_classes.contains_key((#[trigger] declared[i]).0)
                    &&& t.declared_classes[declared[i].0] == declared[i].1.1
                    &&& t.declared_classes_block.contains_key(declared[i].0)
                    &&& t.declared_classes_block[declared[i].0] == b
                }
            &&& forall|h: ClassHash|
                (forall|i: int| 0 <= i < declared.len() ==> (#[trigger] declared[i]).0 != h) ==> {
                    &&& #[trigger] t.declared_classes.contains_key(h)
                        <==> s.declared_classes.contains_key(h)
                    &&& s.declared_classes.contains_key(h) ==> t.declared_classes[h]
                        == s.declared_classes[h]
                }
            &&& forall|h: ClassHash|
                (forall|i: int| 0 <= i < declared.len() ==> (#[trigger] declared[i]).0 != h) ==> {
                    &&& #[trigger] t.declared_classes_block.contains_key(h)
                        <==> s.declared_classes_block.contains_key(h)
                    &&& s.declared_classes_block.contains_key(h) ==> t.declared_classes_block[h]
                        == s.declared_classes_block[h]
                }
        }),
{
    let t = s.append(b, diff, definitions);
    let declared = diff.declared_classes;
    lemma_diff_keys(diff, b);
    assert forall|i: int| 0 <= i < declared.len() implies {
        &&& t.declared_classes.contains_key((#[trigger] declared[i]).0)
        &&& t.declared_classes[declared[i].0] == declared[i].1.1
        &&& t.declared_classes_block.contains_key(declared[i].0)
        &&& t.declared_classes_block[declared[i].0] == b
    } by {
        assert(diff.class_definitions()[i] == (declared[i].0, declared[i].1.1));
        lemma_value_of(diff.class_definitions(), i);
        assert(has_key(declared, declared[i].0));
        assert(has_key(with_value(declared, b), declared[i].0));
        assert(value_of(with_value(declared, b), declared[i].0) == b);
    }
    assert forall|h: ClassHash|
        (forall|i: int| 0 <= i < declared.len() ==> (#[trigger] declared[i]).0 != h) implies {
        &&& #[trigger] t.declared_classes.contains_key(h) <==> s.declared_classes.contains_key(h)
        &&& s.declared_classes.contains_key(h) ==> t.declared_classes[h] == s.declared_classes[h]
    } by {
        assert(!has_key(declared, h));
        assert(!has_key(diff.class_definitions(), h));
    }
    assert forall|h: ClassHash|
        (forall|i: int| 0 <= i < declared.len() ==> (#[trigger] declared[i]).0 != h) implies {
        &&& #[trigger] t.declared_classes_block.contains_key(h)
            <==> s.declared_classes_block.contains_key(h)
        &&& s.declared_classes_block.contains_key(h) ==> t.declared_classes_block[h]
            == s.declared_classes_block[h]
    } by {
        assert(!has_key(declared, h));
        assert(!has_key(with_value(declared, b), h));
    }
}

/// A stored Cairo 0 class stays as it was. A new one that the block declares is stored with the
/// definition that the state diff pairs with its hash and with the block, and so is a new one that
/// is given and not declared. There is no other class.
pub proof fn law_append_writes_deprecated_classes(
    s: StateView,
    b: BlockNumber,
    diff: StateDiffView,
    definitions: Seq<(ClassHash, DeprecatedContractClass)>,
)
    requires
        diff.valid(),
        forall|i: int, j: int|
            0 <= i < j < definitions.len() ==> (#[trigger] definitions[i]).0 != (
            #[trigger] definitions[j]).0,
    ensures
        ({
            let before = s.deprecated_declared_classes;
            let after = s.append(b, diff, definitions).deprecated_declared_classes;
            let declared = diff.deprecated_declared_classes;
            &&& forall|h: ClassHash| #[trigger]
                before.contains_key(h) ==> after.contains_key(h) && after[h] == before[h]
            &&& forall|i: int|
                0 <= i < declared.len() && !before.contains_key((#[trigger] declared[i]).0) ==> {
                    &&& after.contains_key(declared[i].0)
                    &&& after[declared[i].0].block_number == b
                    &&& after[declared[i].0].contract_class == declared[i].1
                }
            &&& forall|i: int|
                0 <= i < definitions.len() && !before.contains_key((#[trigger] definitions[i]).0)
                    && (forall|j: int|
                    0 <= j < declared.len() ==> (#[trigger] declared[j]).0 != definitions[i].0)
                    ==> {
                    &&& after.contains_key(definitions[i].0)
                    &&& after[definitions[i].0].block_number == b
                    &&& after[definitions[i].0].contract_class == definitions[i].1
                }
            &&& forall|h: ClassHash| #[trigger]
                after.contains_key(h) && !before.contains_key(h) ==> (exists|i: int|
                    0 <= i < declared.len() && (#[trigger] declared[i]).0 == h) || (exists|i: int|
                    0 <= i < definitions.len() && (#[trigger] definitions[i]).0 == h)
        }),
{
    let before = s.deprecated_declared_classes;
    let after = s.append(b, diff, definitions).deprecated_declared_classes;
    let declared = diff.deprecated_declared_classes;
    let all = deprecated_classes(definitions, declared);
    lemma_deprecated_classes(definitions, declared);
    assert forall|i: int|
        0 <= i < declared.len() && !before.contains_key((#[trigger] declared[i]).0) implies {
        &&& after.contains_key(declared[i].0)
        &&& after[declared[i].0].block_number == b
        &&& after[declared[i].0].contract_class == declared[i].1
    } by {
        lemma_value_of(declared, i);
        assert(has_key(all, declared[i].0));
        assert(value_of(all, declared[i].0) == declared[i].1);
    }
    assert forall|i: int|
        0 <= i < definitions.len() && !before.contains_key((#[trigger] definitions[i]).0) && (
        forall|j: int| 0 <= j < declared.len() ==> (#[trigger] declared[j]).0 != definitions[i].0)
        implies {
        &&& after.contains_key(definitions[i].0)
        &&& after[definitions[i].0].block_number == b
        &&& after[definitions[i].0].contract_class == definitions[i].1
    } by {
        lemma_value_of(definitions, i);
        assert(!has_key(declared, definitions[i].0));
        assert(has_key(all, definitions[i].0));
        assert(value_of(all, definitions[i].0) == definitions[i].1);
    }
    assert forall|h: ClassHash| #[trigger]
        after.contains_key(h) && !before.contains_key(h) implies (exists|i: int|
        0 <= i < declared.len() && (#[trigger] declared[i]).0 == h) || (exists|i: int|
        0 <= i < definitions.len() && (#[trigger] definitions[i]).0 == h) by {
        assert(has_key(all, h));
        assert(has_key(declared, h) || has_key(definitions, h));
    }
}

/// The state diff of the block is kept as it was given, position by position, with the hashes of
/// the compiled classes and without the definitions. Those of other blocks stay.
pub proof fn law_append_keeps_state_diff(
    s: StateView,
    b: BlockNumber,
    diff: StateDiffView,
    definitions: Seq<(ClassHash, DeprecatedContractClass)>,
)
    ensures
        ({
            let t = s.append(b, diff, definitions);
            let kept = t.state_diffs[b];
            &&& t.state_diffs.contains_key(b)
            &&& kept.deployed_contracts == diff.deployed_contracts
            &&& kept.storage_diffs == diff.storage_diffs
            &&& kept.nonces == diff.nonces
            &&& kept.replaced_classes == diff.replaced_classes
            &&& kept.declared_classes.len() == diff.declared_classes.len()
            &&& forall|i: int|
                0 <= i < diff.declared_classes.len() ==> #[trigger] kept.declared_classes[i] == (
                    diff.declared_classes[i].0,
                    diff.declared_classes[i].1.0,
                )
            &&& kept.deprecated_declared_classes.len() == diff.deprecated_declared_classes.len()
            &&& forall|i: int|
                0 <= i < diff.deprecated_declared_classes.len()
                    ==> #[trigger] kept.deprecated_declared_classes[i]
                    == diff.deprecated_declared_classes[i].0
            &&& forall|c: BlockNumber|
                c != b ==> {
                    &&& #[trigger] t.state_diffs.contains_key(c) <==> s.state_diffs.contains_key(c)
                    &&& t.state_diffs[c] == s.state_diffs[c]
                }
        }),
{
}

/// Adding a block moves the state marker behind it, and touches neither the other marker nor the
/// compiled classes.
pub proof fn law_append_moves_marker(
    s: StateView,
    b: BlockNumber,
    diff: StateDiffView,
    definitions: Seq<(ClassHash, DeprecatedContractClass)>,
)
    requires
        b.0 < u64::MAX,
    ensures
        ({
            let t = s.append(b, diff, definitions);
            &&& t.markers.contains_key(MarkerKind::State)
            &&& t.markers[MarkerKind::State].0 == b.0 + 1
            &&& t.markers.contains_key(MarkerKind::CompiledClass) == s.markers.contains_key(
                MarkerKind::CompiledClass,
            )
            &&& t.markers[MarkerKind::CompiledClass] == s.markers[MarkerKind::CompiledClass]
            &&& t.casms == s.casms
        }),
{
}

/// Taking back a block takes the rows of the contracts that it deploys, and of those whose classes
/// it replaces, from the classes of contracts. No other row of a contract's class changes.
pub proof fn law_revert_removes_class_hashes(s: StateView, b: BlockNumber)
    ensures
        ({
            let t = s.revert(b);
            let diff = s.state_diffs[b];
            &&& forall|i: int|
                0 <= i < diff.deployed_contracts.len() ==> !t.deployed_contracts.contains_key(
                    ((#[trigger] diff.deployed_contracts[i]).0, b),
                )
            &&& forall|i: int|
                0 <= i < diff.replaced_classes.len() ==> !t.deployed_contracts.contains_key(
                    ((#[trigger] diff.replaced_classes[i]).0, b),
                )
            &&& forall|a: ContractAddress, c: BlockNumber|
                c != b || ((forall|j: int|
                    0 <= j < diff.replaced_classes.len() ==> (#[trigger] diff.replaced_classes[j]).0
                        != a) && (forall|j: int|
                    0 <= j < diff.deployed_contracts.len() ==> (
                    #[trigger] diff.deployed_contracts[j]).0 != a)) ==> {
                    &&& #[trigger] t.deployed_contracts.contains_key((a, c))
                        <==> s.deployed_contracts.contains_key((a, c))
                    &&& s.deployed_contracts.contains_key((a, c)) ==> t.deployed_contracts[(a, c)]
                        == s.deployed_contracts[(a, c)]
                }
        }),
{
    let t = s.revert(b);
    let diff = s.state_diffs[b];
    assert forall|i: int| 0 <= i < diff.deployed_contracts.len() implies
        !t.deployed_contracts.contains_key(((#[trigger] diff.deployed_contracts[i]).0, b)) by {
        assert(has_key(diff.deployed_contracts, diff.deployed_contracts[i].0));
    }
    assert forall|i: int| 0 <= i < diff.replaced_classes.len() implies
        !t.deployed_contracts.contains_key(((#[trigger] diff.replaced_classes[i]).0, b)) by {
        assert(has_key(diff.replaced_classes, diff.replaced_classes[i].0));
    }
}

/// Taking back a block takes the nonces that it gives, and those of the contracts that it deploys.
/// No other nonce changes.
pub proof fn law_revert_removes_nonces(s: StateView, b: BlockNumber)
    ensures
        ({
            let t = s.revert(b);
            let diff = s.state_diffs[b];
            &&& forall|i: int|
                0 <= i < diff.deployed_contracts.len() ==> !t.nonces.contains_key(
                    ((#[trigger] diff.deployed_contracts[i]).0, b),
                )
            &&& forall|i: int|
                0 <= i < diff.nonces.len() ==> !t.nonces.contains_key(
                    ((#[trigger] diff.nonces[i]).0, b),
                )
            &&& forall|a: ContractAddress, c: BlockNumber|
                c != b || ((forall|j: int|
                    0 <= j < diff.nonces.len() ==> (#[trigger] diff.nonces[j]).0 != a) && (forall|
                    j: int,
                |
                    0 <= j < diff.deployed_contracts.len() ==> (
                    #[trigger] diff.deployed_contracts[j]).0 != a)) ==> {
                    &&& #[trigger] t.nonces.contains_key((a, c)) <==> s.nonces.contains_key((a, c))
                    &&& s.nonces.contains_key((a, c)) ==> t.nonces[(a, c)] == s.nonces[(a, c)]
                }
        }),
{
    let t = s.revert(b);
    let diff = s.state_diffs[b];
    assert forall|i: int| 0 <= i < diff.deployed_contracts.len() implies !t.nonces.contains_key(
        ((#[trigger] diff.deployed_contracts[i]).0, b),
    ) by {
        assert(has_key(diff.deployed_contracts, diff.deployed_contracts[i].0));
    }
    assert forall|i: int| 0 <= i < diff.nonces.len() implies !t.nonces.contains_key(
        ((#[trigger] diff.nonces[i]).0, b),
    ) by {
        assert(has_key(diff.nonces, diff.nonces[i].0));
    }
}

/// Taking back a block takes the values that it sets. No other value changes.
pub proof fn law_revert_removes_storage(s: StateView, b: BlockNumber)
    requires
        forall|i: int, j: int|
            0 <= i < j < s.state_diffs[b].storage_diffs.len() ==> (
            #[trigger] s.state_diffs[b].storage_diffs[i]).0 != (
            #[trigger] s.state_diffs[b].storage_diffs[j]).0,
    ensures
        ({
            let t = s.revert(b);
            let diffs = s.state_diffs[b].storage_diffs;
            &&& forall|i: int, j: int|
                0 <= i < diffs.len() && 0 <= j < diffs[i].1.len()
                    ==> !t.contract_storage.contains_key(
                    (diffs[i].0, (#[trigger] diffs[i].1[j]).0, b),
                )
            &&& forall|a: ContractAddress, k: StorageKey, c: BlockNumber|
                c != b || (forall|i: int, j: int|
                    0 <= i < diffs.len() && 0 <= j < diffs[i].1.len() && diffs[i].0 == a ==> (
                    #[trigger] diffs[i].1[j]).0 != k) ==> {
                    &&& #[trigger] t.contract_storage.contains_key((a, k, c))
                        <==> s.contract_storage.contains_key((a, k, c))
                    &&& s.contract_storage.contains_key((a, k, c)) ==> t.contract_storage[(a, k, c)]
                        == s.contract_storage[(a, k, c)]
                }
        }),
{
    let t = s.revert(b);
    let diffs = s.state_diffs[b].storage_diffs;
    assert forall|i: int, j: int| 0 <= i < diffs.len() && 0 <= j < diffs[i].1.len() implies
        !t.contract_storage.contains_key((diffs[i].0, (#[trigger] diffs[i].1[j]).0, b)) by {
        lemma_value_of(diffs, i);
        assert(has_key(diffs[i].1, diffs[i].1[j].0));
    }
    assert forall|a: ContractAddress, k: StorageKey, c: BlockNumber|
        c != b || (forall|i: int, j: int|
            0 <= i < diffs.len() && 0 <= j < diffs[i].1.len() && diffs[i].0 == a ==> (
            #[trigger] diffs[i].1[j]).0 != k) implies {
        &&& #[trigger] t.contract_storage.contains_key((a, k, c))
            <==> s.contract_storage.contains_key((a, k, c))
        &&& s.contract_storage.contains_key((a, k, c)) ==> t.contract_storage[(a, k, c)]
            == s.contract_storage[(a, k, c)]
    } by {
        if c == b && has_key(diffs, a) && has_key(value_of(diffs, a), k) {
            let i = key_index(diffs, a);
            assert(diffs[i].0 == a);
            let j = key_index(diffs[i].1, k);
            assert(diffs[i].1[j].0 == k);
        }
    }
}

/// Taking back a block takes the Cairo 1 classes that it declares, with their blocks, and returns
/// each with the definition that was stored, in the order of the state diff. Other classes stay.
pub proof fn law_revert_returns_classes(s: StateView, b: BlockNumber)
    ensures
        ({
            let t = s.revert(b);
            let declared = s.state_diffs[b].declared_classes;
            let returned = s.reverted_classes(b);
            &&& returned.len() == declared.len()
            &&& forall|i: int|
                0 <= i < declared.len() ==> {
                    &&& (#[trigger] returned[i]).0 == declared[i].0
                    &&& returned[i].1 == s.declared_classes[declared[i].0]
                }
            &&& forall|i: int|
                0 <= i < declared.len() ==> {
                    &&& !t.declared_classes.contains_key((#[trigger] declared[i]).0)
                    &&& !t.declared_classes_block.contains_key(declared[i].0)
                }
            &&& forall|h: ClassHash|
                (forall|i: int| 0 <= i < declared.len() ==> (#[trigger] declared[i]).0 != h) ==> {
                    &&& #[trigger] t.declared_classes.contains_key(h)
                        <==> s.declared_classes.contains_key(h)
                    &&& s.declared_classes.contains_key(h) ==> t.declared_classes[h]
                        == s.declared_classes[h]
                }
            &&& forall|h: ClassHash|
                (forall|i: int| 0 <= i < declared.len() ==> (#[trigger] declared[i]).0 != h) ==> {
                    &&& #[trigger] t.declared_classes_block.contains_key(h)
                        <==> s.declared_classes_block.contains_key(h)
                    &&& s.declared_classes_block.contains_key(h) ==> t.declared_classes_block[h]
                        == s.declared_classes_block[h]
                }
        }),
{
    let t = s.revert(b);
    let declared = s.state_diffs[b].declared_classes;
    assert forall|i: int| 0 <= i < declared.len() implies {
        &&& !t.declared_classes.contains_key((#[trigger] declared[i]).0)
        &&& !t.declared_classes_block.contains_key(declared[i].0)
    } by {
        assert(has_key(declared, declared[i].0));
    }
}

/// Taking back a block takes the Cairo 0 classes that are stored with the block and that its state
/// diff names, as declared or as that of a deployed contract, and returns exactly what it takes,
/// with the definitions that were stored. Other classes stay.
pub proof fn law_revert_returns_deprecated_classes(s: StateView, b: BlockNumber, h: ClassHash)
    ensures
        ({
            let before = s.deprecated_declared_classes;
            let after = s.revert(b).deprecated_declared_classes;
            let returned = s.reverted_deprecated_classes(b);
            let diff = s.state_diffs[b];
            let named = (exists|i: int|
                0 <= i < diff.deprecated_declared_classes.len() && (
                #[trigger] diff.deprecated_declared_classes[i]) == h) || (exists|i: int|
                0 <= i < diff.deployed_contracts.len() && (#[trigger] diff.deployed_contracts[i]).1
                    == h);
            let taken = before.contains_key(h) && before[h].block_number == b && named;
            &&& returned.contains_key(h) <==> taken
            &&& taken ==> returned[h] == before[h].contract_class
            &&& after.contains_key(h) <==> before.contains_key(h) && !taken
            &&& after.contains_key(h) ==> after[h] == before[h]
        }),
{
    let diff = s.state_diffs[b];
    let hashes = diff.deprecated_declared_classes;
    let deployed = diff.deployed_contracts;
    let all = candidate_classes(diff);
    if all.contains(h) {
        let p = all.index_of(h);
        assert(all[p] == h);
        if p < hashes.len() {
            assert(hashes[p] == h);
        } else {
            assert(deployed[p - hashes.len()].1 == h);
        }
    }
    if exists|i: int| 0 <= i < hashes.len() && (#[trigger] hashes[i]) == h {
        let i = choose|i: int| 0 <= i < hashes.len() && (#[trigger] hashes[i]) == h;
        assert(all[i] == h);
    }
    if exists|i: int| 0 <= i < deployed.len() && (#[trigger] deployed[i]).1 == h {
        let i = choose|i: int| 0 <= i < deployed.len() && (#[trigger] deployed[i]).1 == h;
        assert(all[hashes.len() + i] == h);
    }
}

/// The compiled classes that taking back a block returns are exactly those that it takes from the
/// compiled classes, each with what was stored. The others stay.
pub proof fn law_revert_returns_compiled_classes(s: StateView, b: BlockNumber)
    ensures
        ({
            let before = s.casms;
            let after = s.revert(b).casms;
            let returned = s.reverted_casms(b);
            &&& forall|i: int|
                0 <= i < returned.len() ==> {
                    &&& before.contains_key((#[trigger] returned[i]).0)
                    &&& returned[i].1 == before[returned[i].0]
                    &&& !after.contains_key(returned[i].0)
                }
            &&& forall|h: ClassHash| #[trigger]
                before.contains_key(h) && !after.contains_key(h) ==> exists|i: int|
                    0 <= i < returned.len() && (#[trigger] returned[i]).0 == h
            &&& forall|h: ClassHash| #[trigger]
                after.contains_key(h) ==> before.contains_key(h) && after[h] == before[h]
        }),
{
    let declared = s.state_diffs[b].declared_classes;
    let n = leading(declared, s.casms);
    let compiled = declared.take(n as int);
    let returned = s.reverted_casms(b);
    lemma_leading(declared, s.casms);
    assert forall|i: int| 0 <= i < returned.len() implies {
        &&& s.casms.contains_key((#[trigger] returned[i]).0)
        &&& returned[i].1 == s.casms[returned[i].0]
        &&& !s.revert(b).casms.contains_key(returned[i].0)
    } by {
        assert(compiled[i].0 == returned[i].0);
        assert(declared[i] == compiled[i]);
        assert(has_key(compiled, compiled[i].0));
    }
    assert forall|h: ClassHash| #[trigger]
        s.casms.contains_key(h) && !s.revert(b).casms.contains_key(h) implies exists|i: int|
        0 <= i < returned.len() && (#[trigger] returned[i]).0 == h by {
        assert(has_key(compiled, h));
        let i = key_index(compiled, h);
        assert(compiled[i].0 == h);
        assert(returned[i].0 == h);
    }
}

/// The compiled classes that taking back a block returns come in the order of its declared classes,
/// from the first one on, and end where the next declared class has none.
pub proof fn law_revert_stops_at_missing_compiled_class(s: StateView, b: BlockNumber)
    ensures
        ({
            let declared = s.state_diffs[b].declared_classes;
            let returned = s.reverted_casms(b);
            &&& returned.len() <= declared.len()
            &&& forall|i: int|
                0 <= i < returned.len() ==> (#[trigger] returned[i]).0 == declared[i].0
            &&& returned.len() < declared.len() ==> !s.casms.contains_key(
                declared[returned.len() as int].0,
            )
        }),
{
    lemma_leading(s.state_diffs[b].declared_classes, s.casms);
}

/// Taking back a block takes its state diff and no other, and moves the state marker back to it.
/// The marker of compiled classes moves back to it if it is right behind it, and else stays.
pub proof fn law_revert_moves_markers(s: StateView, b: BlockNumber)
    ensures
        ({
            let t = s.revert(b);
            &&& !t.state_diffs.contains_key(b)
            &&& forall|c: BlockNumber|
                c != b ==> {
                    &&& #[trigger] t.state_diffs.contains_key(c) <==> s.state_diffs.contains_key(c)
                    &&& t.state_diffs[c] == s.state_diffs[c]
                }
            &&& t.markers.contains_key(MarkerKind::State)
            &&& t.markers[MarkerKind::State] == b
            &&& s.markers.contains_key(MarkerKind::CompiledClass)
                && s.markers[MarkerKind::CompiledClass].0 == b.0 + 1 ==> t.markers.contains_key(
                MarkerKind::CompiledClass,
            ) && t.markers[MarkerKind::CompiledClass] == b
            &&& !(s.markers.contains_key(MarkerKind::CompiledClass)
                && s.markers[MarkerKind::CompiledClass].0 == b.0 + 1) ==> {
                &&& t.markers.contains_key(MarkerKind::CompiledClass) == s.markers.contains_key(
                    MarkerKind::CompiledClass,
                )
                &&& t.markers[MarkerKind::CompiledClass] == s.markers[MarkerKind::CompiledClass]
            }
        }),
{
}

/// The marker of a kind is what its row says, and block zero without a row. A block is the last one
/// if the state marker is right behind it, and it can be taken back if its state diff and the
/// definition of each class that it declares are stored.
pub proof fn law_markers(s: StateView, b: BlockNumber)
    ensures
        forall|kind: MarkerKind| #[trigger]
            s.markers.contains_key(kind) ==> s.marker(kind) == s.markers[kind],
        forall|kind: MarkerKind|
            !s.markers.contains_key(kind) ==> (#[trigger] s.marker(kind)).0 == 0,
        s.is_last(b) <==> s.markers.contains_key(MarkerKind::State)
            && s.markers[MarkerKind::State].0 == b.0 + 1,
        s.has_block(b) <==> s.state_diffs.contains_key(b) && forall|i: int|
            0 <= i < s.state_diffs[b].declared_classes.len() ==> s.declared_classes.contains_key(
                (#[trigger] s.state_diffs[b].declared_classes[i]).0,
            ),
{
}

} // verus!
