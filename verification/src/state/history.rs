//! What readers see before and after a block is added or taken back.
use vstd::prelude::*;

use starknet_api::deprecated_contract_class::ContractClass as DeprecatedContractClass;

use crate::block::{BlockNumber, StateNumber};
use crate::felt::{ClassHash, ContractAddress, StorageKey, ZERO};
#[allow(unused_imports)]
use crate::index_map::{distinct_keys, has_key, value_of};
use crate::state_diff::StateDiffView;
use crate::storage::StateView;

#[allow(unused_imports)]
use super::laws::{lemma_append_accepted, lemma_diff_keys};
#[allow(unused_imports)]
use super::merge::lemma_deprecated_classes;
#[allow(unused_imports)]
use super::model::{
    deprecated_classes, ends_before, history_of, latest, storage_history_of, with_value, ReaderView,
};

verus! {

/// Whether two states look the same to readers of state `state`.
pub open spec fn same_reads(r: ReaderView, t: ReaderView, state: StateNumber) -> bool {
    &&& forall|a: ContractAddress| #[trigger]
        r.class_hash_at(state, a) == t.class_hash_at(state, a)
    &&& forall|a: ContractAddress| #[trigger] r.nonce_at(state, a) == t.nonce_at(state, a)
    &&& forall|a: ContractAddress, k: StorageKey| #[trigger]
        r.storage_at(state, a, k) == t.storage_at(state, a, k)
    &&& forall|h: ClassHash| #[trigger]
        r.class_declared_at(state, h) == t.class_declared_at(state, h)
    &&& forall|h: ClassHash| #[trigger]
        r.class_declared_at(state, h) ==> r.declared_classes.get(h) == t.declared_classes.get(h)
    &&& forall|h: ClassHash| #[trigger]
        r.deprecated_class_at(state, h) == t.deprecated_class_at(state, h)
}

/// Histories that agree before a block have the same latest value before it.
pub proof fn lemma_latest_same<V>(h: Map<BlockNumber, V>, g: Map<BlockNumber, V>, bound: nat)
    requires
        bound <= u64::MAX,
        forall|b: BlockNumber|
            b.0 < bound ==> (#[trigger] h.contains_key(b) <==> g.contains_key(b)),
        forall|b: BlockNumber| b.0 < bound && h.contains_key(b) ==> #[trigger] h[b] == g[b],
    ensures
        latest(h, bound) == latest(g, bound),
    decreases bound,
{
    if bound > 0 {
        let last = BlockNumber((bound - 1) as u64);
        assert(h.contains_key(last) <==> g.contains_key(last));
        lemma_latest_same(h, g, (bound - 1) as nat);
    }
}

/// Behind the last block that a history can have a value of, its latest value stays the same.
pub proof fn lemma_latest_beyond<V>(h: Map<BlockNumber, V>, b: BlockNumber, bound: nat)
    requires
        b.0 < bound <= u64::MAX,
        forall|c: BlockNumber| #[trigger] h.contains_key(c) ==> c.0 <= b.0,
    ensures
        latest(h, bound) == latest(h, (b.0 + 1) as nat),
    decreases bound,
{
    if bound > b.0 + 1 {
        assert(!h.contains_key(BlockNumber((bound - 1) as u64)));
        lemma_latest_beyond(h, b, (bound - 1) as nat);
    }
}

/// Adding a block changes nothing for readers of the states before it.
pub proof fn law_append_keeps_earlier_states(
    s: StateView,
    b: BlockNumber,
    diff: StateDiffView,
    definitions: Seq<(ClassHash, DeprecatedContractClass)>,
    state: StateNumber,
)
    requires
        s.append_error(b, diff, definitions) is None,
        state.0.0 <= b.0,
    ensures
        same_reads(s.readable(), s.append(b, diff, definitions).readable(), state),
{
    let t = s.append(b, diff, definitions);
    let r = s.readable();
    let n = state.0.0 as nat;
    lemma_append_accepted(s, b, diff, definitions);
    lemma_diff_keys(diff, b);
    assert forall|a: ContractAddress| #[trigger]
        r.class_hash_at(state, a) == t.readable().class_hash_at(state, a) by {
        lemma_latest_same(
            history_of(s.deployed_contracts, a),
            history_of(t.deployed_contracts, a),
            n,
        );
    }
    assert forall|a: ContractAddress| #[trigger]
        r.nonce_at(state, a) == t.readable().nonce_at(state, a) by {
        lemma_latest_same(history_of(s.nonces, a), history_of(t.nonces, a), n);
    }
    assert forall|a: ContractAddress, k: StorageKey| #[trigger]
        r.storage_at(state, a, k) == t.readable().storage_at(state, a, k) by {
        lemma_latest_same(
            storage_history_of(s.contract_storage, a, k),
            storage_history_of(t.contract_storage, a, k),
            n,
        );
    }
    assert forall|h: ClassHash| #[trigger] r.class_declared_at(state, h) implies
        r.declared_classes.get(h)
        == t.readable().declared_classes.get(h) by {
        assert(!has_key(diff.declared_classes, h));
        assert(!has_key(diff.class_definitions(), h));
    }
    assert forall|h: ClassHash| #[trigger]
        r.class_declared_at(state, h) == t.readable().class_declared_at(state, h) by {
        assert(has_key(with_value(diff.declared_classes, b), h) == has_key(
            diff.declared_classes,
            h,
        ));
    }
    assert forall|h: ClassHash| #[trigger]
        r.deprecated_class_at(state, h) == t.readable().deprecated_class_at(state, h) by {
    }
}

/// Taking back the last block changes nothing for readers of the states before it.
pub proof fn law_revert_keeps_earlier_states(s: StateView, b: BlockNumber, state: StateNumber)
    requires
        s.classes_consistent(),
        s.is_last(b),
        state.0.0 <= b.0,
    ensures
        same_reads(s.readable(), s.revert(b).readable(), state),
{
    let t = s.revert(b);
    let r = s.readable();
    let n = state.0.0 as nat;
    assert forall|a: ContractAddress| #[trigger]
        r.class_hash_at(state, a) == t.readable().class_hash_at(state, a) by {
        lemma_latest_same(
            history_of(s.deployed_contracts, a),
            history_of(t.deployed_contracts, a),
            n,
        );
    }
    assert forall|a: ContractAddress| #[trigger]
        r.nonce_at(state, a) == t.readable().nonce_at(state, a) by {
        lemma_latest_same(history_of(s.nonces, a), history_of(t.nonces, a), n);
    }
    assert forall|a: ContractAddress, k: StorageKey| #[trigger]
        r.storage_at(state, a, k) == t.readable().storage_at(state, a, k) by {
        lemma_latest_same(
            storage_history_of(s.contract_storage, a, k),
            storage_history_of(t.contract_storage, a, k),
            n,
        );
    }
}

/// In the states after an added block, a contract has the class that the block replaced its class
/// with, else the one that the block deployed it with, else the one that it had before. The
/// contract has no class of the block or of a later one yet.
pub proof fn law_class_hash_after_append(
    s: StateView,
    b: BlockNumber,
    diff: StateDiffView,
    definitions: Seq<(ClassHash, DeprecatedContractClass)>,
    state: StateNumber,
    address: ContractAddress,
)
    requires
        ends_before(history_of(s.deployed_contracts, address), b),
        s.append_error(b, diff, definitions) is None,
        b.0 < state.0.0,
    ensures
        s.append(b, diff, definitions).readable().class_hash_at(
            state,
            address,
        ) == (if has_key(diff.replaced_classes, address) {
            Some(value_of(diff.replaced_classes, address))
        } else if has_key(diff.deployed_contracts, address) {
            Some(value_of(diff.deployed_contracts, address))
        } else {
            s.readable().class_hash_at(StateNumber(b), address)
        }),
{
    let t = s.append(b, diff, definitions);
    let after = history_of(t.deployed_contracts, address);
    lemma_append_accepted(s, b, diff, definitions);
    let before = history_of(s.deployed_contracts, address);
    let given = has_key(diff.replaced_classes, address) || has_key(
        diff.deployed_contracts,
        address,
    );
    assert forall|c: BlockNumber| #[trigger]
        after.contains_key(c) <==> before.contains_key(c) || (c == b && given) by {
    }
    assert(!before.contains_key(b));
    assert(BlockNumber(b.0) == b);
    lemma_latest_beyond(after, b, state.0.0 as nat);
    lemma_latest_same(before, after, b.0 as nat);
}

/// In the states after an added block, a contract has the nonce that the block gave it, else zero
/// if the block deployed it, else the one that it had before. The contract has no nonce of the
/// block or of a later one yet.
pub proof fn law_nonce_after_append(
    s: StateView,
    b: BlockNumber,
    diff: StateDiffView,
    definitions: Seq<(ClassHash, DeprecatedContractClass)>,
    state: StateNumber,
    address: ContractAddress,
)
    requires
        ends_before(history_of(s.nonces, address), b),
        s.append_error(b, diff, definitions) is None,
        b.0 < state.0.0,
    ensures
        s.append(b, diff, definitions).readable().nonce_at(
            state,
            address,
        ) == (if has_key(diff.nonces, address) {
            Some(value_of(diff.nonces, address))
        } else if has_key(diff.deployed_contracts, address) {
            Some(ZERO)
        } else {
            s.readable().nonce_at(StateNumber(b), address)
        }),
{
    let t = s.append(b, diff, definitions);
    let after = history_of(t.nonces, address);
    lemma_append_accepted(s, b, diff, definitions);
    lemma_diff_keys(diff, b);
    let before = history_of(s.nonces, address);
    let given = has_key(diff.nonces, address) || has_key(
        with_value(diff.deployed_contracts, ZERO),
        address,
    );
    assert forall|c: BlockNumber| #[trigger]
        after.contains_key(c) <==> before.contains_key(c) || (c == b && given) by {
    }
    assert(!before.contains_key(b));
    assert(BlockNumber(b.0) == b);
    lemma_latest_beyond(after, b, state.0.0 as nat);
    lemma_latest_same(before, after, b.0 as nat);
}

/// In the states after an added block, a storage key of a contract has the value that the block
/// gave it, else the one that it had before. The key has no value of the block or of a later one
/// yet.
pub proof fn law_storage_after_append(
    s: StateView,
    b: BlockNumber,
    diff: StateDiffView,
    definitions: Seq<(ClassHash, DeprecatedContractClass)>,
    state: StateNumber,
    address: ContractAddress,
    key: StorageKey,
)
    requires
        ends_before(storage_history_of(s.contract_storage, address, key), b),
        s.append_error(b, diff, definitions) is None,
        b.0 < state.0.0,
    ensures
        s.append(b, diff, definitions).readable().storage_at(
            state,
            address,
            key,
        ) == (if has_key(diff.storage_diffs, address) && has_key(
            value_of(diff.storage_diffs, address),
            key,
        ) {
            value_of(value_of(diff.storage_diffs, address), key)
        } else {
            s.readable().storage_at(StateNumber(b), address, key)
        }),
{
    let t = s.append(b, diff, definitions);
    let after = storage_history_of(t.contract_storage, address, key);
    lemma_append_accepted(s, b, diff, definitions);
    let before = storage_history_of(s.contract_storage, address, key);
    let given = has_key(diff.storage_diffs, address) && has_key(
        value_of(diff.storage_diffs, address),
        key,
    );
    assert forall|c: BlockNumber| #[trigger]
        after.contains_key(c) <==> before.contains_key(c) || (c == b && given) by {
    }
    assert(!before.contains_key(b));
    assert(BlockNumber(b.0) == b);
    lemma_latest_beyond(after, b, state.0.0 as nat);
    lemma_latest_same(before, after, b.0 as nat);
}

/// A Cairo 1 class is declared, with its definition, in the states after the block that declares
/// it and in no other. Other classes are declared where they were.
pub proof fn law_classes_after_append(
    s: StateView,
    b: BlockNumber,
    diff: StateDiffView,
    definitions: Seq<(ClassHash, DeprecatedContractClass)>,
    state: StateNumber,
    class_hash: ClassHash,
)
    requires
        s.append_error(b, diff, definitions) is None,
    ensures
        ({
            let r = s.append(b, diff, definitions).readable();
            &&& has_key(diff.declared_classes, class_hash) ==> {
                &&& r.class_declared_at(state, class_hash) <==> b.0 < state.0.0
                &&& r.declared_classes.get(class_hash) == Some(
                    value_of(diff.class_definitions(), class_hash),
                )
            }
            &&& !has_key(diff.declared_classes, class_hash) ==> r.class_declared_at(
                state,
                class_hash,
            ) == s.readable().class_declared_at(state, class_hash)
        }),
{
    lemma_append_accepted(s, b, diff, definitions);
    lemma_diff_keys(diff, b);
}

/// A Cairo 0 class that is stored keeps its definition and its block, however often it is declared
/// again. A new one has its definition in the states after the block that brings it and in no
/// other; where a block both declares a class and is given its definition, the declared one counts.
pub proof fn law_deprecated_classes_after_append(
    s: StateView,
    b: BlockNumber,
    diff: StateDiffView,
    definitions: Seq<(ClassHash, DeprecatedContractClass)>,
    state: StateNumber,
    class_hash: ClassHash,
)
    requires
        s.append_error(b, diff, definitions) is None,
        diff.valid(),
        distinct_keys(definitions),
    ensures
        s.append(b, diff, definitions).readable().deprecated_class_at(state, class_hash) == (
        if s.deprecated_declared_classes.contains_key(class_hash) || state.0.0 <= b.0 {
            s.readable().deprecated_class_at(state, class_hash)
        } else if has_key(diff.deprecated_declared_classes, class_hash) {
            Some(value_of(diff.deprecated_declared_classes, class_hash))
        } else if has_key(definitions, class_hash) {
            Some(value_of(definitions, class_hash))
        } else {
            None
        }),
{
    let all = deprecated_classes(definitions, diff.deprecated_declared_classes);
    lemma_deprecated_classes(definitions, diff.deprecated_declared_classes);
    assert(has_key(all, class_hash) <==> has_key(definitions, class_hash) || has_key(
        diff.deprecated_declared_classes,
        class_hash,
    ));
}

} // verus!
