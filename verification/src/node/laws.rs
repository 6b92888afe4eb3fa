//! What holds of the node's state whatever blocks are added.
use vstd::prelude::*;

use crate::block::{BlockNumber, StateNumber};
use crate::felt::{ClassHash, ContractAddress, StorageKey};
#[allow(unused_imports)]
use crate::index_map::{has_key, key_index, value_of};
#[allow(unused_imports)]
use crate::state::history::{lemma_latest_beyond, lemma_latest_same};
#[allow(unused_imports)]
use crate::state::model::{ends_before, storage_history_of};
use crate::storage::StorageError;

#[allow(unused_imports)]
use super::model::{deploy_error, last_write};
use super::state_diff::StateDiffForwardView;
use super::storage::{IndexedDeployedContract, StateView};

verus! {

impl StateView {
    /// Whether the tables hold nothing of the block that the marker expects, nor of later ones.
    pub open spec fn only_past(self) -> bool {
        &&& forall|a: ContractAddress| #[trigger]
            self.contracts.contains_key(a) ==> self.contracts[a].block_number.0 < self.marker().0
        &&& forall|a: ContractAddress, k: StorageKey, b: BlockNumber| #[trigger]
            self.contract_storage.contains_key((a, k, b)) ==> b.0 < self.marker().0
    }

    /// Whether the marker is the first block that is not there: the state diffs are those of the
    /// blocks before it.
    pub open spec fn has_all_blocks(self) -> bool {
        forall|b: BlockNumber| #[trigger]
            self.state_diffs.contains_key(b) <==> b.0 < self.marker().0
    }
}

/// Where all contracts can be deployed, each of them is new.
pub proof fn lemma_deployed_are_new(
    contracts: Map<ContractAddress, IndexedDeployedContract>,
    s: Seq<(ContractAddress, ClassHash)>,
    i: int,
)
    requires
        deploy_error(contracts, s) is None,
        0 <= i < s.len(),
    ensures
        !contracts.contains_key(s[i].0),
    decreases s.len(),
{
    if i < s.len() - 1 {
        lemma_deployed_are_new(contracts, s.drop_last(), i);
    }
}

/// The empty state holds nothing of any block.
pub proof fn law_empty_state_is_past()
    ensures
        StateView::empty().only_past(),
{
}

/// In a state of past blocks no storage key has a change at the marker or later.
pub proof fn law_changes_end_before_marker(s: StateView)
    requires
        s.only_past(),
    ensures
        forall|a: ContractAddress, k: StorageKey| #[trigger]
            ends_before(storage_history_of(s.contract_storage, a, k), s.marker()),
{
}

/// Adding a block to a state of past blocks gives a state of past blocks.
pub proof fn law_append_keeps_past(s: StateView, b: BlockNumber, diff: StateDiffForwardView)
    requires
        s.only_past(),
        s.append_error(b, diff) is None,
        b.0 < u64::MAX,
    ensures
        s.append(b, diff).only_past(),
{
}

/// The marker stays the first block that is not there, through every block that is added.
pub proof fn law_marker_is_first_missing_block(
    s: StateView,
    b: BlockNumber,
    diff: StateDiffForwardView,
)
    requires
        s.has_all_blocks(),
        b.0 < u64::MAX,
    ensures
        StateView::empty().has_all_blocks(),
        s.append_error(b, diff) is None ==> s.append(b, diff).has_all_blocks(),
{
}

/// Blocks are added in order: block `b` is refused unless it is the next one, after it the next
/// one is block `b + 1`, and no block is added twice.
pub proof fn law_blocks_in_order(
    s: StateView,
    b: BlockNumber,
    diff: StateDiffForwardView,
    again: StateDiffForwardView,
)
    requires
        b.0 < u64::MAX,
    ensures
        s.append_error(b, diff) is None ==> s.marker() == b,
        s.append(b, diff).marker().0 == b.0 + 1,
        s.append(b, diff).append_error(b, again) == Some(
            StorageError::MarkerMismatch { expected: BlockNumber((b.0 + 1) as u64), found: b },
        ),
{
}

/// A contract is deployed only once: a block that deploys a known contract, or one contract twice,
/// is refused.
pub proof fn law_contracts_deployed_once(
    s: StateView,
    b: BlockNumber,
    diff: StateDiffForwardView,
    i: int,
    j: int,
)
    requires
        0 <= i < diff.deployed_contracts.len(),
        0 <= j < diff.deployed_contracts.len(),
        s.contracts.contains_key(diff.deployed_contracts[i].0) || (i != j
            && diff.deployed_contracts[i].0 == diff.deployed_contracts[j].0),
    ensures
        s.append_error(b, diff) is Some,
{
    if deploy_error(s.contracts, diff.deployed_contracts) is None {
        lemma_deployed_are_new(s.contracts, diff.deployed_contracts, i);
        if i < j {
            lemma_deployed_are_distinct(s.contracts, diff.deployed_contracts, i, j);
        } else if j < i {
            lemma_deployed_are_distinct(s.contracts, diff.deployed_contracts, j, i);
        }
    }
}

/// Where all contracts can be deployed, no two of them are the same.
pub proof fn lemma_deployed_are_distinct(
    contracts: Map<ContractAddress, IndexedDeployedContract>,
    s: Seq<(ContractAddress, ClassHash)>,
    i: int,
    j: int,
)
    requires
        deploy_error(contracts, s) is None,
        0 <= i < j < s.len(),
    ensures
        s[i].0 != s[j].0,
    decreases s.len(),
{
    if j < s.len() - 1 {
        lemma_deployed_are_distinct(contracts, s.drop_last(), i, j);
    } else {
        assert(s.drop_last()[i].0 == s[i].0);
    }
}

/// A deployed contract keeps its class and its block for good. A new one has its class in the
/// states after the block that deploys it and in no other.
pub proof fn law_class_hash_after_append(
    s: StateView,
    b: BlockNumber,
    diff: StateDiffForwardView,
    state: StateNumber,
    address: ContractAddress,
)
    requires
        s.append_error(b, diff) is None,
    ensures
        s.append(b, diff).readable().class_hash_at(state, address) == (
        if s.contracts.contains_key(address) {
            s.readable().class_hash_at(state, address)
        } else if has_key(diff.deployed_contracts, address) && b.0 < state.0.0 {
            Some(value_of(diff.deployed_contracts, address))
        } else {
            None
        }),
{
    if has_key(diff.deployed_contracts, address) {
        lemma_deployed_are_new(
            s.contracts,
            diff.deployed_contracts,
            key_index(diff.deployed_contracts, address),
        );
    }
}

/// In the states after an added block, a storage key of a contract has the last value that the
/// block gave it, else the one that it had before. The key has no value of the block or of a later
/// one yet.
pub proof fn law_storage_after_append(
    s: StateView,
    b: BlockNumber,
    diff: StateDiffForwardView,
    state: StateNumber,
    address: ContractAddress,
    key: StorageKey,
)
    requires
        ends_before(storage_history_of(s.contract_storage, address, key), b),
        s.append_error(b, diff) is None,
        b.0 < state.0.0,
    ensures
        s.append(b, diff).readable().storage_at(state, address, key) == (match last_write(
            diff.storage_diffs,
            address,
            key,
        ) {
            Some(value) => value,
            None => s.readable().storage_at(StateNumber(b), address, key),
        }),
{
    let before = storage_history_of(s.contract_storage, address, key);
    let after = storage_history_of(s.append(b, diff).contract_storage, address, key);
    let given = last_write(diff.storage_diffs, address, key) is Some;
    assert forall|c: BlockNumber| #[trigger]
        after.contains_key(c) <==> before.contains_key(c) || (c == b && given) by {
    }
    assert(!before.contains_key(b));
    assert(BlockNumber(b.0) == b);
    lemma_latest_beyond(after, b, state.0.0 as nat);
    lemma_latest_same(before, after, b.0 as nat);
}

/// Adding a block changes nothing for readers of the states before it.
pub proof fn law_append_keeps_earlier_states(
    s: StateView,
    b: BlockNumber,
    diff: StateDiffForwardView,
    state: StateNumber,
    address: ContractAddress,
    key: StorageKey,
)
    requires
        s.append_error(b, diff) is None,
        state.0.0 <= b.0,
    ensures
        s.append(b, diff).readable().class_hash_at(state, address) == s.readable().class_hash_at(
            state,
            address,
        ),
        s.append(b, diff).readable().storage_at(state, address, key) == s.readable().storage_at(
            state,
            address,
            key,
        ),
{
    law_class_hash_after_append(s, b, diff, state, address);
    lemma_latest_same(
        storage_history_of(s.contract_storage, address, key),
        storage_history_of(s.append(b, diff).contract_storage, address, key),
        state.0.0 as nat,
    );
}

} // verus!
