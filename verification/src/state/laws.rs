//! What holds of the state whatever blocks are added and taken back.
use vstd::prelude::*;

use cairo_lang_starknet::casm_contract_class::CasmContractClass;
use starknet_api::deprecated_contract_class::ContractClass as DeprecatedContractClass;
use starknet_api::state::ContractClass;

use crate::block::{BlockNumber, StateNumber};
use crate::felt::{ClassHash, ContractAddress, StarkFelt, StorageKey, ZERO};
#[allow(unused_imports)]
use crate::index_map::{distinct_keys, has_key, key_index, value_of};
use crate::state_diff::StateDiffView;
use crate::storage::{MarkerKind, StateView, StorageError};

#[allow(unused_imports)]
use super::lemmas::{lemma_leading, lemma_value_of};
#[allow(unused_imports)]
use super::merge::lemma_deprecated_classes;
#[allow(unused_imports)]
use super::model::{
    candidate_classes, declare_deprecated_error, declare_error, deploy_error, deprecated_classes,
    ends_before, entries_map, first_error, history_of, indexed_classes, leading, replace_error,
    rows_at, storage_history_of, with_value,
};

verus! {

impl StateView {
    /// Whether every given Cairo 0 definition is of a class that the state diff names, as declared
    /// or as that of a deployed contract, or of a class that is stored already.
    pub open spec fn knows_definitions(
        self,
        diff: StateDiffView,
        definitions: Seq<(ClassHash, DeprecatedContractClass)>,
    ) -> bool {
        forall|h: ClassHash| #[trigger]
            has_key(definitions, h) ==> candidate_classes(diff.thin()).contains(h)
                || self.deprecated_declared_classes.contains_key(h)
    }

    /// Whether the tables hold nothing that taking back block `b` would remove besides what the
    /// state diff `diff` brings: no nonce, storage value or Cairo 0 class of the block for what the
    /// diff names, no compiled class for the first class that it declares, and no marker of
    /// compiled classes behind the block.
    pub open spec fn ready_for(self, b: BlockNumber, diff: StateDiffView) -> bool {
        &&& forall|a: ContractAddress| #[trigger]
            has_key(diff.nonces, a) ==> !self.nonces.contains_key((a, b))
        &&& forall|a: ContractAddress, k: StorageKey| #[trigger]
            self.contract_storage.contains_key((a, k, b)) ==> !(has_key(diff.storage_diffs, a)
                && has_key(value_of(diff.storage_diffs, a), k))
        &&& forall|h: ClassHash| #[trigger]
            candidate_classes(diff.thin()).contains(h)
                && self.deprecated_declared_classes.contains_key(h)
                ==> self.deprecated_declared_classes[h].block_number != b
        &&& diff.declared_classes.len() > 0 ==> !self.casms.contains_key(diff.declared_classes[0].0)
        &&& self.marker(MarkerKind::CompiledClass).0 != b.0 + 1
    }

    /// Whether the marker is the first block that is not there: the state diffs are those of the
    /// blocks before it.
    pub open spec fn has_all_blocks(self) -> bool {
        forall|b: BlockNumber| #[trigger]
            self.state_diffs.contains_key(b) <==> b.0 < self.marker(MarkerKind::State).0
    }

    /// Whether the tables tell the story of the blocks before the marker: every row stems from the
    /// state diff of its block, and every change of a state diff has its row.
    pub open spec fn consistent(self) -> bool {
        &&& self.has_all_blocks()
        &&& self.rows_consistent()
        &&& self.values_consistent()
        &&& self.classes_consistent()
    }

    /// Whether the rows of contracts, nonces and storage are those that the state diffs name, and
    /// no state diff replaces the class of a contract that it deploys.
    pub open spec fn rows_consistent(self) -> bool {
        let m = self.marker(MarkerKind::State);
        &&& forall|a: ContractAddress, b: BlockNumber| #[trigger]
            self.deployed_contracts.contains_key((a, b)) <==> b.0 < m.0 && (has_key(
                self.state_diffs[b].deployed_contracts,
                a,
            ) || has_key(self.state_diffs[b].replaced_classes, a))
        &&& forall|a: ContractAddress, b: BlockNumber| #[trigger]
            self.nonces.contains_key((a, b)) <==> b.0 < m.0 && (has_key(
                self.state_diffs[b].deployed_contracts,
                a,
            ) || has_key(self.state_diffs[b].nonces, a))
        &&& forall|a: ContractAddress, k: StorageKey, b: BlockNumber| #[trigger]
            self.contract_storage.contains_key((a, k, b)) <==> b.0 < m.0 && has_key(
                self.state_diffs[b].storage_diffs,
                a,
            ) && has_key(value_of(self.state_diffs[b].storage_diffs, a), k)
        &&& forall|a: ContractAddress, b: BlockNumber|
            b.0 < m.0 && #[trigger] has_key(self.state_diffs[b].replaced_classes, a) ==> !has_key(
                self.state_diffs[b].deployed_contracts,
                a,
            )
    }

    /// Whether the Cairo 1 classes are those that the state diffs declare, each with the block that
    /// declares it and with a definition.
    pub open spec fn classes_consistent(self) -> bool {
        let m = self.marker(MarkerKind::State);
        &&& forall|h: ClassHash| #[trigger]
            self.declared_classes.contains_key(h) <==> self.declared_classes_block.contains_key(h)
        &&& forall|h: ClassHash| #[trigger]
            self.declared_classes_block.contains_key(h) ==> self.declared_classes_block[h].0 < m.0
                && has_key(self.state_diffs[self.declared_classes_block[h]].declared_classes, h)
        &&& forall|b: BlockNumber, h: ClassHash|
            b.0 < m.0 && #[trigger] has_key(self.state_diffs[b].declared_classes, h)
                ==> self.declared_classes_block.contains_key(h) && self.declared_classes_block[h]
                == b
    }

    /// Whether every Cairo 0 class is named by the state diff of its block, as declared or as that
    /// of a deployed contract.
    pub open spec fn deprecated_classes_named(self) -> bool {
        forall|h: ClassHash| #[trigger]
            self.deprecated_declared_classes.contains_key(h)
                ==> self.deprecated_declared_classes[h].block_number.0 < self.marker(
                MarkerKind::State,
            ).0 && candidate_classes(
                self.state_diffs[self.deprecated_declared_classes[h].block_number],
            ).contains(h)
    }

    /// Whether each row has the value that the state diff of its block gives it. A deployed
    /// contract starts with the nonce zero.
    pub open spec fn values_consistent(self) -> bool {
        &&& forall|a: ContractAddress, b: BlockNumber|
            self.deployed_contracts.contains_key((a, b)) ==> #[trigger] self.deployed_contracts[(
                a,
                b,
            )] == (if has_key(self.state_diffs[b].replaced_classes, a) {
                value_of(self.state_diffs[b].replaced_classes, a)
            } else {
                value_of(self.state_diffs[b].deployed_contracts, a)
            })
        &&& forall|a: ContractAddress, b: BlockNumber|
            self.nonces.contains_key((a, b)) ==> #[trigger] self.nonces[(a, b)] == (if has_key(
                self.state_diffs[b].nonces,
                a,
            ) {
                value_of(self.state_diffs[b].nonces, a)
            } else {
                ZERO
            })
        &&& forall|a: ContractAddress, k: StorageKey, b: BlockNumber|
            self.contract_storage.contains_key((a, k, b)) ==> #[trigger] self.contract_storage[(
                a,
                k,
                b,
            )] == value_of(value_of(self.state_diffs[b].storage_diffs, a), k)
    }

    /// Whether the compiled classes belong to declared classes, those of each block were added in
    /// the order of its declared classes, and their marker is not ahead of that of the state.
    pub open spec fn compiled_classes_consistent(self) -> bool {
        let m = self.marker(MarkerKind::State);
        &&& self.marker(MarkerKind::CompiledClass).0 <= m.0
        &&& forall|h: ClassHash| #[trigger]
            self.casms.contains_key(h) ==> self.declared_classes.contains_key(h)
        &&& forall|b: BlockNumber, i: int, j: int|
            b.0 < m.0 && 0 <= i < j < self.state_diffs[b].declared_classes.len()
                && self.casms.contains_key((#[trigger] self.state_diffs[b].declared_classes[j]).0)
                ==> self.casms.contains_key(
                (#[trigger] self.state_diffs[b].declared_classes[i]).0,
            )
    }
}

/// Without an error of any element, each element is free of errors.
pub proof fn lemma_no_first_error<T>(s: Seq<T>, f: spec_fn(T) -> Option<StorageError>, i: int)
    requires
        first_error(s, f) is None,
        0 <= i < s.len(),
    ensures
        f(s[i]) is None,
    decreases s.len(),
{
    if i < s.len() - 1 {
        lemma_no_first_error(s.drop_last(), f, i);
    }
}

/// The empty state is consistent, in its Cairo 0 and compiled classes too.
pub proof fn law_empty_state_consistent()
    ensures
        StateView::empty().consistent(),
        StateView::empty().deprecated_classes_named(),
        StateView::empty().compiled_classes_consistent(),
{
}

/// What stands behind a state diff that nothing stands against.
pub proof fn lemma_append_accepted(
    s: StateView,
    b: BlockNumber,
    diff: StateDiffView,
    definitions: Seq<(ClassHash, DeprecatedContractClass)>,
)
    requires
        s.append_error(b, diff, definitions) is None,
    ensures
        s.marker(MarkerKind::State) == b,
        forall|a: ContractAddress| #[trigger]
            has_key(diff.deployed_contracts, a) ==> !s.deployed_contracts.contains_key((a, b))
                && !s.nonces.contains_key((a, b)),
        forall|a: ContractAddress| #[trigger]
            has_key(diff.replaced_classes, a) ==> !s.deployed_contracts.contains_key((a, b))
                && !has_key(diff.deployed_contracts, a),
        !s.state_diffs.contains_key(b),
        forall|h: ClassHash| #[trigger]
            has_key(diff.declared_classes, h) ==> !s.declared_classes.contains_key(h)
                && !s.declared_classes_block.contains_key(h),
{
    let deploy = |e: (ContractAddress, ClassHash)|
        deploy_error(s.deployed_contracts, s.nonces, e.0, b);
    let replace = |e: (ContractAddress, ClassHash)|
        replace_error(
            s.deployed_contracts.union_prefer_right(rows_at(diff.deployed_contracts, b)),
            e.0,
            b,
        );
    let declare = |e: (ClassHash, ContractClass)|
        declare_error(s.declared_classes, s.declared_classes_block, e.0);
    assert forall|a: ContractAddress| #[trigger] has_key(diff.deployed_contracts, a) implies
        !s.deployed_contracts.contains_key((a, b))
        && !s.nonces.contains_key((a, b)) by {
        lemma_no_first_error(diff.deployed_contracts, deploy, key_index(diff.deployed_contracts, a));
    }
    assert forall|a: ContractAddress| #[trigger] has_key(diff.replaced_classes, a) implies
        !s.deployed_contracts.contains_key((a, b))
        && !has_key(diff.deployed_contracts, a) by {
        lemma_no_first_error(diff.replaced_classes, replace, key_index(diff.replaced_classes, a));
        if has_key(diff.deployed_contracts, a) {
            assert(rows_at(diff.deployed_contracts, b).contains_key((a, b)));
        }
    }
    assert forall|h: ClassHash| #[trigger] has_key(diff.declared_classes, h) implies
        !s.declared_classes.contains_key(h)
        && !s.declared_classes_block.contains_key(h) by {
        let i = key_index(diff.declared_classes, h);
        assert(diff.class_definitions()[i].0 == h);
        lemma_no_first_error(diff.class_definitions(), declare, i);
    }
}

/// Pairs that keep the keys of others have the same keys.
proof fn lemma_same_keys<P, Q>(s: Seq<(StarkFelt, P)>, t: Seq<(StarkFelt, Q)>)
    requires
        s.len() == t.len(),
        forall|i: int| 0 <= i < s.len() ==> (#[trigger] s[i]).0 == (#[trigger] t[i]).0,
    ensures
        forall|k: StarkFelt| has_key(s, k) == #[trigger] has_key(t, k),
{
    assert forall|k: StarkFelt| has_key(s, k) == #[trigger] has_key(t, k) by {
        if has_key(s, k) {
            let i = key_index(s, k);
            assert(s[i].0 == k);
            assert(t[i].0 == k);
        }
        if has_key(t, k) {
            let i = key_index(t, k);
            assert(t[i].0 == k);
            assert(s[i].0 == k);
        }
    }
}

/// The maps of a state diff and of its thin form, and those of the rows made from it, have the
/// same keys.
pub proof fn lemma_diff_keys(diff: StateDiffView, b: BlockNumber)
    ensures
        forall|h: ClassHash| #[trigger]
            has_key(diff.thin().declared_classes, h) == has_key(diff.declared_classes, h),
        forall|h: ClassHash| #[trigger]
            has_key(diff.class_definitions(), h) == has_key(diff.declared_classes, h),
        forall|h: ClassHash| #[trigger]
            has_key(with_value(diff.declared_classes, b), h) == has_key(diff.declared_classes, h),
        forall|h: ClassHash|
            has_key(diff.declared_classes, h) ==> #[trigger] value_of(
                with_value(diff.declared_classes, b),
                h,
            ) == b,
        forall|a: ContractAddress| #[trigger]
            has_key(with_value(diff.deployed_contracts, ZERO), a) == has_key(
                diff.deployed_contracts,
                a,
            ),
        forall|a: ContractAddress|
            has_key(diff.deployed_contracts, a) ==> #[trigger] value_of(
                with_value(diff.deployed_contracts, ZERO),
                a,
            ) == ZERO,
        forall|h: ClassHash| #[trigger]
            diff.thin().deprecated_declared_classes.contains(h) == has_key(
                diff.deprecated_declared_classes,
                h,
            ),
{
    lemma_same_keys(diff.declared_classes, diff.thin().declared_classes);
    lemma_same_keys(diff.declared_classes, diff.class_definitions());
    lemma_same_keys(diff.declared_classes, with_value(diff.declared_classes, b));
    lemma_same_keys(diff.deployed_contracts, with_value(diff.deployed_contracts, ZERO));
    assert forall|h: ClassHash| has_key(diff.declared_classes, h) implies #[trigger] value_of(
        with_value(diff.declared_classes, b),
        h,
    ) == b by {
        assert(has_key(with_value(diff.declared_classes, b), h));
    }
    assert forall|a: ContractAddress| has_key(diff.deployed_contracts, a) implies
        #[trigger] value_of(
        with_value(diff.deployed_contracts, ZERO),
        a,
    ) == ZERO by {
        assert(has_key(with_value(diff.deployed_contracts, ZERO), a));
    }
    let hashes = diff.thin().deprecated_declared_classes;
    assert forall|h: ClassHash| #[trigger] hashes.contains(h) == has_key(
        diff.deprecated_declared_classes,
        h,
    ) by {
        if hashes.contains(h) {
            let i = hashes.index_of(h);
            assert(diff.deprecated_declared_classes[i].0 == h);
        }
        if has_key(diff.deprecated_declared_classes, h) {
            let i = key_index(diff.deprecated_declared_classes, h);
            assert(hashes[i] == h);
        }
    }
}

/// A Cairo 0 class that a block brings is among those that taking the block back looks at.
proof fn lemma_candidates(
    s: StateView,
    diff: StateDiffView,
    definitions: Seq<(ClassHash, DeprecatedContractClass)>,
    h: ClassHash,
)
    requires
        diff.valid(),
        distinct_keys(definitions),
        s.knows_definitions(diff, definitions),
        has_key(deprecated_classes(definitions, diff.deprecated_declared_classes), h),
        !s.deprecated_declared_classes.contains_key(h),
    ensures
        candidate_classes(diff.thin()).contains(h),
{
    lemma_deprecated_classes(definitions, diff.deprecated_declared_classes);
    lemma_diff_keys(diff, BlockNumber(0));
    let hashes = diff.thin().deprecated_declared_classes;
    if !has_key(definitions, h) {
        assert(diff.thin().deprecated_declared_classes.contains(h));
        let i = hashes.index_of(h);
        assert(candidate_classes(diff.thin())[i] == h);
    }
}

/// Adding a block to a consistent state gives a consistent state, whatever definitions are given.
pub proof fn law_append_keeps_consistency(
    s: StateView,
    b: BlockNumber,
    diff: StateDiffView,
    definitions: Seq<(ClassHash, DeprecatedContractClass)>,
)
    requires
        s.consistent(),
        s.append_error(b, diff, definitions) is None,
        b.0 < u64::MAX,
    ensures
        s.append(b, diff, definitions).consistent(),
{
    let t = s.append(b, diff, definitions);
    let m = t.marker(MarkerKind::State);
    lemma_append_accepted(s, b, diff, definitions);
    lemma_diff_keys(diff, b);
    assert(m.0 == b.0 + 1);
    assert(t.state_diffs[b] == diff.thin());
    assert forall|a: ContractAddress, c: BlockNumber| #[trigger]
        t.deployed_contracts.contains_key((a, c)) <==> c.0 < m.0 && (has_key(
            t.state_diffs[c].deployed_contracts,
            a,
        ) || has_key(t.state_diffs[c].replaced_classes, a)) by {
        assert(s.deployed_contracts.contains_key((a, c)) ==> c.0 < b.0);
    }
    assert forall|a: ContractAddress, c: BlockNumber| #[trigger]
        t.nonces.contains_key((a, c)) <==> c.0 < m.0 && (has_key(
            t.state_diffs[c].deployed_contracts,
            a,
        ) || has_key(t.state_diffs[c].nonces, a)) by {
        assert(s.nonces.contains_key((a, c)) ==> c.0 < b.0);
    }
    assert forall|a: ContractAddress, k: StorageKey, c: BlockNumber| #[trigger]
        t.contract_storage.contains_key((a, k, c)) <==> c.0 < m.0 && has_key(
            t.state_diffs[c].storage_diffs,
            a,
        ) && has_key(value_of(t.state_diffs[c].storage_diffs, a), k) by {
        assert(s.contract_storage.contains_key((a, k, c)) ==> c.0 < b.0);
    }
    assert forall|h: ClassHash| #[trigger] t.declared_classes_block.contains_key(h) implies
        t.declared_classes_block[h].0
        < m.0 && has_key(t.state_diffs[t.declared_classes_block[h]].declared_classes, h) by {
        if has_key(diff.declared_classes, h) {
            assert(t.declared_classes_block[h] == b);
            assert(has_key(diff.thin().declared_classes, h));
        } else {
            assert(s.declared_classes_block.contains_key(h));
        }
    }
    assert forall|c: BlockNumber, h: ClassHash|
        c.0 < m.0 && #[trigger] has_key(t.state_diffs[c].declared_classes, h) implies
            t.declared_classes_block.contains_key(h)
        && t.declared_classes_block[h] == c by {
        if c == b {
            assert(has_key(diff.declared_classes, h));
        } else {
            assert(has_key(s.state_diffs[c].declared_classes, h));
            assert(s.declared_classes_block.contains_key(h));
            assert(!has_key(diff.declared_classes, h));
        }
    }
    assert forall|a: ContractAddress, c: BlockNumber|
        c.0 < m.0 && #[trigger] has_key(t.state_diffs[c].replaced_classes, a) implies !has_key(
        t.state_diffs[c].deployed_contracts,
        a,
    ) by {
        if c != b {
            assert(has_key(s.state_diffs[c].replaced_classes, a));
        }
    }
}

/// Adding a block keeps every Cairo 0 class named by the state diff of its block, if the given
/// definitions are of classes that the block names, or of known ones.
pub proof fn law_append_keeps_deprecated_classes_named(
    s: StateView,
    b: BlockNumber,
    diff: StateDiffView,
    definitions: Seq<(ClassHash, DeprecatedContractClass)>,
)
    requires
        s.deprecated_classes_named(),
        s.append_error(b, diff, definitions) is None,
        b.0 < u64::MAX,
        diff.valid(),
        distinct_keys(definitions),
        s.knows_definitions(diff, definitions),
    ensures
        s.append(b, diff, definitions).deprecated_classes_named(),
{
    let t = s.append(b, diff, definitions);
    lemma_append_accepted(s, b, diff, definitions);
    assert forall|h: ClassHash| #[trigger] t.deprecated_declared_classes.contains_key(h) implies
        t.deprecated_declared_classes[h].block_number.0 < t.marker(MarkerKind::State).0
        && candidate_classes(
        t.state_diffs[t.deprecated_declared_classes[h].block_number],
    ).contains(h) by {
        if !s.deprecated_declared_classes.contains_key(h) {
            lemma_candidates(s, diff, definitions, h);
        }
    }
}

/// Adding a block keeps the compiled classes consistent.
pub proof fn law_append_keeps_compiled_classes_consistent(
    s: StateView,
    b: BlockNumber,
    diff: StateDiffView,
    definitions: Seq<(ClassHash, DeprecatedContractClass)>,
)
    requires
        s.compiled_classes_consistent(),
        s.append_error(b, diff, definitions) is None,
        b.0 < u64::MAX,
    ensures
        s.append(b, diff, definitions).compiled_classes_consistent(),
{
    let t = s.append(b, diff, definitions);
    lemma_append_accepted(s, b, diff, definitions);
    lemma_diff_keys(diff, b);
    assert forall|c: BlockNumber, i: int, j: int|
        c.0 < t.marker(MarkerKind::State).0 && 0 <= i < j
            < t.state_diffs[c].declared_classes.len() && t.casms.contains_key(
            (#[trigger] t.state_diffs[c].declared_classes[j]).0,
        ) implies t.casms.contains_key((#[trigger] t.state_diffs[c].declared_classes[i]).0) by {
        if c == b {
            let h = t.state_diffs[c].declared_classes[j].0;
            assert(diff.declared_classes[j].0 == h);
            assert(has_key(diff.declared_classes, h));
            assert(s.declared_classes.contains_key(h));
        } else {
            assert(t.state_diffs[c] == s.state_diffs[c]);
        }
    }
}

/// In a consistent state no contract, nonce or storage key has a change at the marker or later.
pub proof fn law_changes_end_before_marker(s: StateView)
    requires
        s.rows_consistent(),
    ensures
        forall|a: ContractAddress| #[trigger]
            ends_before(history_of(s.deployed_contracts, a), s.marker(MarkerKind::State)),
        forall|a: ContractAddress| #[trigger]
            ends_before(history_of(s.nonces, a), s.marker(MarkerKind::State)),
        forall|a: ContractAddress, k: StorageKey| #[trigger]
            ends_before(
                storage_history_of(s.contract_storage, a, k),
                s.marker(MarkerKind::State),
            ),
{
}

/// A consistent state, in its Cairo 0 and compiled classes too, is ready for every block that
/// nothing stands against.
pub proof fn law_consistent_states_are_ready(
    s: StateView,
    b: BlockNumber,
    diff: StateDiffView,
    definitions: Seq<(ClassHash, DeprecatedContractClass)>,
)
    requires
        s.rows_consistent(),
        s.deprecated_classes_named(),
        s.compiled_classes_consistent(),
        s.append_error(b, diff, definitions) is None,
    ensures
        s.ready_for(b, diff),
{
    lemma_append_accepted(s, b, diff, definitions);
    if diff.declared_classes.len() > 0 {
        assert(has_key(diff.declared_classes, diff.declared_classes[0].0));
    }
}

/// The marker stays the first block that is not there, through every block that is added or taken
/// back.
pub proof fn law_marker_is_first_missing_block(
    s: StateView,
    b: BlockNumber,
    diff: StateDiffView,
    definitions: Seq<(ClassHash, DeprecatedContractClass)>,
)
    requires
        s.has_all_blocks(),
        b.0 < u64::MAX,
    ensures
        StateView::empty().has_all_blocks(),
        s.append_error(b, diff, definitions) is None ==> s.append(
            b,
            diff,
            definitions,
        ).has_all_blocks(),
        s.is_last(b) ==> s.revert(b).has_all_blocks(),
{
}

/// Every block before the marker of a consistent state is there, so the last one can be taken
/// back.
pub proof fn law_last_block_is_there(s: StateView, b: BlockNumber)
    requires
        s.has_all_blocks(),
        s.classes_consistent(),
        s.is_last(b),
    ensures
        s.has_block(b),
{
    assert forall|i: int| 0 <= i < s.state_diffs[b].declared_classes.len() implies
        s.declared_classes.contains_key(
    (#[trigger] s.state_diffs[b].declared_classes[i]).0) by {
        let h = s.state_diffs[b].declared_classes[i].0;
        assert(has_key(s.state_diffs[b].declared_classes, h));
        assert(s.declared_classes_block.contains_key(h));
    }
}

/// Taking back the last block of a consistent state gives a consistent state.
pub proof fn law_revert_keeps_consistency(s: StateView, b: BlockNumber)
    requires
        s.consistent(),
        s.is_last(b),
    ensures
        s.revert(b).consistent(),
        s.revert(b).marker(MarkerKind::State) == b,
{
    let t = s.revert(b);
    let diff = s.state_diffs[b];
    assert(t.marker(MarkerKind::State) == b);
    assert forall|c: BlockNumber, h: ClassHash|
        c.0 < b.0 && #[trigger] has_key(t.state_diffs[c].declared_classes, h) implies
            t.declared_classes_block.contains_key(h)
        && t.declared_classes_block[h] == c by {
        assert(has_key(s.state_diffs[c].declared_classes, h));
        assert(s.declared_classes_block[h] == c);
        assert(!has_key(diff.declared_classes, h));
    }
    assert forall|h: ClassHash| #[trigger] t.declared_classes_block.contains_key(h) implies
        t.declared_classes_block[h].0
        < b.0 && has_key(t.state_diffs[t.declared_classes_block[h]].declared_classes, h) by {
        assert(s.declared_classes_block.contains_key(h));
        assert(!has_key(diff.declared_classes, h));
    }
    assert forall|a: ContractAddress, c: BlockNumber|
        c.0 < b.0 && #[trigger] has_key(t.state_diffs[c].replaced_classes, a) implies !has_key(
        t.state_diffs[c].deployed_contracts,
        a,
    ) by {
        assert(has_key(s.state_diffs[c].replaced_classes, a));
    }
}

/// Taking back the last block keeps every Cairo 0 class named by the state diff of its block.
pub proof fn law_revert_keeps_deprecated_classes_named(s: StateView, b: BlockNumber)
    requires
        s.deprecated_classes_named(),
        s.is_last(b),
    ensures
        s.revert(b).deprecated_classes_named(),
{
    let t = s.revert(b);
    assert forall|h: ClassHash| #[trigger] t.deprecated_declared_classes.contains_key(h) implies
        t.deprecated_declared_classes[h].block_number.0 < b.0 && candidate_classes(
        t.state_diffs[t.deprecated_declared_classes[h].block_number],
    ).contains(h) by {
        assert(s.deprecated_declared_classes.contains_key(h));
        assert(!s.reverted_deprecated_classes(b).contains_key(h));
    }
}

/// Taking back the last block keeps the compiled classes consistent.
pub proof fn law_revert_keeps_compiled_classes_consistent(s: StateView, b: BlockNumber)
    requires
        s.classes_consistent(),
        s.compiled_classes_consistent(),
        s.is_last(b),
    ensures
        s.revert(b).compiled_classes_consistent(),
{
    let t = s.revert(b);
    let diff = s.state_diffs[b];
    let n = leading(diff.declared_classes, s.casms);
    let compiled = diff.declared_classes.take(n as int);
    lemma_leading(diff.declared_classes, s.casms);
    assert forall|h: ClassHash| #[trigger] t.casms.contains_key(h) implies
        t.declared_classes.contains_key(h) by {
        assert(s.casms.contains_key(h));
        assert(s.declared_classes.contains_key(h));
        if has_key(diff.declared_classes, h) {
            let j = key_index(diff.declared_classes, h);
            assert(diff.declared_classes[j].0 == h);
            assert forall|i: int| 0 <= i <= j implies
                s.casms.contains_key((#[trigger] diff.declared_classes[i]).0) by {
                if i < j {
                    assert(s.state_diffs[b].declared_classes[i] == diff.declared_classes[i]);
                    assert(s.state_diffs[b].declared_classes[j] == diff.declared_classes[j]);
                }
            }
            assert(j < n);
            assert(compiled[j].0 == h);
            assert(has_key(compiled, h));
        }
    }
    assert forall|c: BlockNumber, i: int, j: int|
        c.0 < b.0 && 0 <= i < j < t.state_diffs[c].declared_classes.len() && t.casms.contains_key(
            (#[trigger] t.state_diffs[c].declared_classes[j]).0,
        ) implies t.casms.contains_key((#[trigger] t.state_diffs[c].declared_classes[i]).0) by {
        assert(t.state_diffs[c] == s.state_diffs[c]);
        let h = s.state_diffs[c].declared_classes[i].0;
        assert(s.casms.contains_key(s.state_diffs[c].declared_classes[j].0));
        assert(s.casms.contains_key(h));
        assert(has_key(s.state_diffs[c].declared_classes, h));
        if has_key(compiled, h) {
            let p = key_index(compiled, h);
            assert(compiled[p].0 == h);
            assert(diff.declared_classes[p].0 == h);
            assert(has_key(s.state_diffs[b].declared_classes, h));
            assert(s.declared_classes_block[h] == b);
            assert(s.declared_classes_block[h] == c);
        }
    }
}

/// Taking back a block right after it was added leaves the state as it was, and returns what the
/// block brought: its state diff, the definitions that it declares, and the Cairo 0 definitions
/// that were not there before.
pub proof fn law_revert_undoes_append(
    s: StateView,
    b: BlockNumber,
    diff: StateDiffView,
    definitions: Seq<(ClassHash, DeprecatedContractClass)>,
)
    requires
        s.ready_for(b, diff),
        s.append_error(b, diff, definitions) is None,
        b.0 < u64::MAX,
        diff.valid(),
        distinct_keys(definitions),
        s.knows_definitions(diff, definitions),
    ensures
        ({
            let t = s.append(b, diff, definitions);
            &&& t.is_last(b)
            &&& t.has_block(b)
            &&& t.revert(b) == (StateView { markers: s.markers.insert(MarkerKind::State, b), ..s })
            &&& s.markers.contains_key(MarkerKind::State) ==> t.revert(b) == s
            &&& t.state_diffs[b] == diff.thin()
            &&& t.reverted_classes(b) == diff.class_definitions()
            &&& t.reverted_deprecated_classes(b) == entries_map(
                deprecated_classes(definitions, diff.deprecated_declared_classes),
            ).remove_keys(s.deprecated_declared_classes.dom())
            &&& t.reverted_casms(b) == Seq::<(ClassHash, CasmContractClass)>::empty()
        }),
{
    let t = s.append(b, diff, definitions);
    let u = t.revert(b);
    let expected = StateView { markers: s.markers.insert(MarkerKind::State, b), ..s };
    let all = deprecated_classes(definitions, diff.deprecated_declared_classes);
    lemma_append_accepted(s, b, diff, definitions);
    lemma_diff_keys(diff, b);
    let declared = diff.thin().declared_classes;
    assert forall|i: int| 0 <= i < declared.len() implies t.declared_classes.contains_key(
        (#[trigger] declared[i]).0,
    ) by {
        assert(has_key(declared, declared[i].0));
    }
    assert(leading(declared, s.casms) == 0) by {
        if declared.len() > 0 {
            assert(diff.declared_classes[0].0 == declared[0].0);
            assert(has_key(diff.declared_classes, declared[0].0));
        }
    }
    assert(u.markers =~= expected.markers);
    assert(u.declared_classes =~= s.declared_classes);
    assert(u.declared_classes_block =~= s.declared_classes_block);
    assert(u.casms =~= s.casms) by {
        assert forall|h: ClassHash| !has_key(declared.take(0), h) by {}
    }
    assert(u.deployed_contracts =~= s.deployed_contracts);
    assert(u.nonces =~= s.nonces);
    assert(u.contract_storage =~= s.contract_storage);
    assert(u.state_diffs =~= s.state_diffs);
    assert forall|h: ClassHash|
        has_key(all, h) && !s.deprecated_declared_classes.contains_key(h) implies
            candidate_classes(diff.thin()).contains(h) by {
        lemma_candidates(s, diff, definitions, h);
    }
    assert forall|h: ClassHash| #[trigger] s.deprecated_declared_classes.contains_key(h) implies
        t.deprecated_declared_classes[h] == s.deprecated_declared_classes[h] by {}
    assert(u.deprecated_declared_classes =~= s.deprecated_declared_classes);
    assert(t.reverted_deprecated_classes(b) =~= entries_map(all).remove_keys(
        s.deprecated_declared_classes.dom(),
    ));
    assert(t.reverted_classes(b) =~= diff.class_definitions()) by {
        assert forall|i: int| 0 <= i < declared.len() implies t.declared_classes[declared[i].0]
            == #[trigger] diff.class_definitions()[i].1 by {
            assert(distinct_keys(diff.class_definitions()));
            lemma_value_of(diff.class_definitions(), i);
        }
    }
    assert(t.reverted_casms(b) =~= Seq::<(ClassHash, CasmContractClass)>::empty());
    assert(s.markers.contains_key(MarkerKind::State) ==> expected.markers =~= s.markers);
}

/// What was taken back can be added again: the state diff with the definitions that were returned,
/// and the Cairo 0 definitions that the block brought, give the state as it was, but for the
/// compiled classes.
pub proof fn law_append_restores_revert(
    s: StateView,
    b: BlockNumber,
    diff: StateDiffView,
    definitions: Seq<(ClassHash, DeprecatedContractClass)>,
)
    requires
        s.consistent(),
        s.is_last(b),
        diff.valid(),
        distinct_keys(definitions),
        diff.thin() == s.state_diffs[b],
        diff.class_definitions() == s.reverted_classes(b),
        ({
            let all = deprecated_classes(definitions, diff.deprecated_declared_classes);
            &&& forall|i: int|
                0 <= i < all.len() ==> s.deprecated_declared_classes.contains_key(
                    (#[trigger] all[i]).0,
                ) && s.deprecated_declared_classes[all[i].0].contract_class == all[i].1
            &&& forall|h: ClassHash| #[trigger]
                s.reverted_deprecated_classes(b).contains_key(h) ==> has_key(all, h)
        }),
    ensures
        ({
            let t = s.revert(b);
            &&& t.append_error(b, diff, definitions) is None
            &&& t.append(b, diff, definitions) == (StateView {
                casms: t.casms,
                markers: t.markers.insert(MarkerKind::State, BlockNumber((b.0 + 1) as u64)),
                ..s
            })
        }),
{
    let t = s.revert(b);
    let u = t.append(b, diff, definitions);
    let all = deprecated_classes(definitions, diff.deprecated_declared_classes);
    let thin = diff.thin();
    law_revert_keeps_consistency(s, b);
    lemma_diff_keys(diff, b);
    lemma_deprecated_classes(definitions, diff.deprecated_declared_classes);
    lemma_all_accepted(
        diff.deployed_contracts,
        |e: (ContractAddress, ClassHash)| deploy_error(t.deployed_contracts, t.nonces, e.0, b),
    );
    let deployed = t.deployed_contracts.union_prefer_right(rows_at(diff.deployed_contracts, b));
    assert forall|i: int| 0 <= i < diff.replaced_classes.len() implies replace_error(
        deployed,
        (#[trigger] diff.replaced_classes[i]).0,
        b,
    ) is None by {
        assert(has_key(s.state_diffs[b].replaced_classes, diff.replaced_classes[i].0));
    }
    lemma_all_accepted(
        diff.replaced_classes,
        |e: (ContractAddress, ClassHash)| replace_error(deployed, e.0, b),
    );
    assert forall|i: int| 0 <= i < diff.class_definitions().len() implies declare_error(
        t.declared_classes,
        t.declared_classes_block,
        (#[trigger] diff.class_definitions()[i]).0,
    ) is None by {
        assert(thin.declared_classes[i].0 == diff.class_definitions()[i].0);
        assert(has_key(thin.declared_classes, thin.declared_classes[i].0));
    }
    lemma_all_accepted(
        diff.class_definitions(),
        |e: (ClassHash, ContractClass)|
            declare_error(t.declared_classes, t.declared_classes_block, e.0),
    );
    lemma_all_accepted(
        all,
        |e: (ClassHash, DeprecatedContractClass)|
            declare_deprecated_error(t.deprecated_declared_classes, e.0, e.1),
    );
    assert(u.deployed_contracts =~= s.deployed_contracts);
    assert(u.nonces =~= s.nonces);
    assert(u.contract_storage =~= s.contract_storage);
    assert(u.state_diffs =~= s.state_diffs);
    assert forall|h: ClassHash| has_key(diff.class_definitions(), h) implies value_of(
        diff.class_definitions(),
        h,
    ) == s.declared_classes[h] by {
        let i = key_index(diff.class_definitions(), h);
        assert(diff.class_definitions()[i] == s.reverted_classes(b)[i]);
        assert(diff.class_definitions()[i].0 == h);
    }
    assert forall|h: ClassHash| #[trigger] has_key(thin.declared_classes, h) implies
        s.declared_classes.contains_key(h)
        && s.declared_classes_block[h] == b by {
        assert(has_key(s.state_diffs[b].declared_classes, h));
        assert(s.declared_classes_block.contains_key(h));
    }
    assert forall|h: ClassHash|
        #![trigger u.declared_classes.contains_key(h)]
        #![trigger u.declared_classes_block.contains_key(h)]
        u.declared_classes.contains_key(h) == s.declared_classes.contains_key(h)
            && u.declared_classes_block.contains_key(h) == s.declared_classes_block.contains_key(
            h,
        ) && (s.declared_classes.contains_key(h) ==> u.declared_classes[h] == s.declared_classes[h]
            && u.declared_classes_block[h] == s.declared_classes_block[h]) by {
        assert(has_key(thin.declared_classes, h) == has_key(diff.class_definitions(), h));
        assert(has_key(thin.declared_classes, h) == has_key(
            with_value(diff.declared_classes, b),
            h,
        ));
        if has_key(thin.declared_classes, h) {
            assert(value_of(with_value(diff.declared_classes, b), h) == b);
            assert(value_of(diff.class_definitions(), h) == s.declared_classes[h]);
        }
    }
    assert(u.declared_classes =~= s.declared_classes);
    assert(u.declared_classes_block =~= s.declared_classes_block);
    assert forall|h: ClassHash| has_key(all, h) implies
        s.deprecated_declared_classes.contains_key(h)
        && s.deprecated_declared_classes[h].contract_class == value_of(all, h) by {
        let i = key_index(all, h);
        assert(all[i].0 == h);
    }
    assert forall|h: ClassHash| #[trigger] u.deprecated_declared_classes.contains_key(h)
        == s.deprecated_declared_classes.contains_key(h) && (
    s.deprecated_declared_classes.contains_key(h) ==> u.deprecated_declared_classes[h]
        == s.deprecated_declared_classes[h]) by {
        let removed = s.reverted_deprecated_classes(b);
        assert(t.deprecated_declared_classes.contains_key(h)
            <==> s.deprecated_declared_classes.contains_key(h) && !removed.contains_key(h));
        if removed.contains_key(h) {
            assert(has_key(all, h));
            assert(indexed_classes(all, b).contains_key(h));
            assert(u.deprecated_declared_classes[h] == indexed_classes(all, b)[h]);
        }
    }
    assert(u.deprecated_declared_classes =~= s.deprecated_declared_classes);
}

/// Blocks are added in order: block `b` is refused unless it is the next one, after it the next
/// one is block `b + 1`, and no block is added twice.
pub proof fn law_blocks_in_order(
    s: StateView,
    b: BlockNumber,
    diff: StateDiffView,
    definitions: Seq<(ClassHash, DeprecatedContractClass)>,
    again: StateDiffView,
    again_definitions: Seq<(ClassHash, DeprecatedContractClass)>,
)
    requires
        b.0 < u64::MAX,
    ensures
        s.append_error(b, diff, definitions) is None ==> s.marker(MarkerKind::State) == b,
        s.append(b, diff, definitions).marker(MarkerKind::State).0 == b.0 + 1,
        s.append(b, diff, definitions).append_error(b, again, again_definitions) == Some(
            StorageError::MarkerMismatch { expected: BlockNumber((b.0 + 1) as u64), found: b },
        ),
{
}

/// Cairo 0 classes that come with the definitions that they are stored with, or that are new, stand
/// against no block: it is refused only where it is refused without them.
pub proof fn law_known_definitions_accepted(
    s: StateView,
    b: BlockNumber,
    diff: StateDiffView,
    definitions: Seq<(ClassHash, DeprecatedContractClass)>,
)
    requires
        ({
            let all = deprecated_classes(definitions, diff.deprecated_declared_classes);
            forall|i: int|
                0 <= i < all.len() && s.deprecated_declared_classes.contains_key(
                    (#[trigger] all[i]).0,
                ) ==> s.deprecated_declared_classes[all[i].0].contract_class == all[i].1
        }),
    ensures
        s.append_error(b, diff, definitions) == s.append_error(
            b,
            (StateDiffView { deprecated_declared_classes: Seq::empty(), ..diff }),
            Seq::empty(),
        ),
{
    let all = deprecated_classes(definitions, diff.deprecated_declared_classes);
    let none = StateDiffView { deprecated_declared_classes: Seq::empty(), ..diff };
    let f = |e: (ClassHash, DeprecatedContractClass)|
        declare_deprecated_error(s.deprecated_declared_classes, e.0, e.1);
    lemma_all_accepted(all, f);
    assert(none.class_definitions() =~= diff.class_definitions());
}

/// Where no element has an error, there is no first error.
pub proof fn lemma_all_accepted<T>(s: Seq<T>, f: spec_fn(T) -> Option<StorageError>)
    requires
        forall|i: int| 0 <= i < s.len() ==> f(#[trigger] s[i]) is None,
    ensures
        first_error(s, f) is None,
    decreases s.len(),
{
    if s.len() > 0 {
        let t = s.drop_last();
        assert forall|i: int| 0 <= i < t.len() implies f(#[trigger] t[i]) is None by {
            assert(t[i] == s[i]);
        }
        lemma_all_accepted(t, f);
    }
}

/// In a consistent state every Cairo 1 class that is declared in a state has its definition: a
/// reader never meets a contradiction between the tables.
pub proof fn law_declared_classes_have_definitions(
    s: StateView,
    state: StateNumber,
    class_hash: ClassHash,
)
    requires
        s.classes_consistent(),
        s.readable().class_declared_at(state, class_hash),
    ensures
        s.readable().declared_classes.get(class_hash) is Some,
{
}

} // verus!
