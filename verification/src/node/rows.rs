//! What adding a block does to each table of the node's state, when it is refused, and what a
//! reader answers, told from the positions of the state diff and the rows of the tables.
use vstd::prelude::*;

use crate::block::{BlockNumber, StateNumber};
use crate::db::DbError;
use crate::felt::{ClassHash, ContractAddress, StarkFelt, StorageKey};
#[allow(unused_imports)]
use crate::index_map::{has_key, key_index};
#[allow(unused_imports)]
use crate::state::lemmas::lemma_value_of;
#[allow(unused_imports)]
use crate::state::model::storage_history_of;
#[allow(unused_imports)]
use crate::state::reader::{lemma_latest_is, lemma_latest_none};
use crate::storage::{MarkerKind, StorageError, TransactionKind};

#[allow(unused_imports)]
use super::laws::{lemma_deployed_are_distinct, lemma_deployed_are_new};
#[allow(unused_imports)]
use super::model::{deploy_error, last_entry, last_write, ReaderView};
use super::state::StateStorage;
use super::state_diff::{
    DeployedContract, StateDiffForward, StateDiffForwardView, StorageDiff, StorageEntry,
};
use super::storage::{IndexedDeployedContract, StateView, StorageTxn, Tables};
#[allow(unused_imports)]
use super::write::lemma_deploy_error_stays;

verus! {

/// The last entry with a key gives the key its value.
proof fn lemma_last_entry(s: Seq<(StorageKey, StarkFelt)>, j: int)
    requires
        0 <= j < s.len(),
        forall|k: int| j < k < s.len() ==> (#[trigger] s[k]).0 != s[j].0,
    ensures
        last_entry(s, s[j].0) == Some(s[j].1),
    decreases s.len(),
{
    if j < s.len() - 1 {
        let t = s.drop_last();
        assert(s[s.len() - 1].0 != s[j].0);
        assert forall|k: int| j < k < t.len() implies (#[trigger] t[k]).0 != t[j].0 by {
            assert(s[k].0 != s[j].0);
        }
        lemma_last_entry(t, j);
    }
}

/// A key that no entry has gets no value.
proof fn lemma_no_entry(s: Seq<(StorageKey, StarkFelt)>, key: StorageKey)
    requires
        forall|k: int| 0 <= k < s.len() ==> (#[trigger] s[k]).0 != key,
    ensures
        last_entry(s, key) is None,
    decreases s.len(),
{
    if s.len() > 0 {
        let t = s.drop_last();
        assert(s[s.len() - 1].0 != key);
        assert forall|k: int| 0 <= k < t.len() implies (#[trigger] t[k]).0 != key by {
            assert(s[k].0 != key);
        }
        lemma_no_entry(t, key);
    }
}

/// Whether entry `j` of storage diff `i` is the last one of the block for its contract and its key.
pub open spec fn is_last_write(
    diffs: Seq<(ContractAddress, Seq<(StorageKey, StarkFelt)>)>,
    i: int,
    j: int,
) -> bool {
    &&& 0 <= i < diffs.len()
    &&& 0 <= j < diffs[i].1.len()
    &&& forall|k: int| j < k < diffs[i].1.len() ==> (#[trigger] diffs[i].1[k]).0 != diffs[i].1[j].0
    &&& forall|h: int, k: int|
        i < h < diffs.len() && diffs[h].0 == diffs[i].0 && 0 <= k < diffs[h].1.len() ==> (
        #[trigger] diffs[h].1[k]).0 != diffs[i].1[j].0
}

/// The last entry of a block for a contract and a key gives the key its value.
proof fn lemma_last_write(
    diffs: Seq<(ContractAddress, Seq<(StorageKey, StarkFelt)>)>,
    i: int,
    j: int,
)
    requires
        is_last_write(diffs, i, j),
    ensures
        last_write(diffs, diffs[i].0, diffs[i].1[j].0) == Some(diffs[i].1[j].1),
    decreases diffs.len(),
{
    let last = diffs.len() - 1;
    if i == last {
        lemma_last_entry(diffs[i].1, j);
    } else {
        let t = diffs.drop_last();
        assert(diffs.last() == diffs[last]);
        if diffs[last].0 == diffs[i].0 {
            assert forall|k: int| 0 <= k < diffs[last].1.len() implies (
            #[trigger] diffs[last].1[k]).0 != diffs[i].1[j].0 by {}
            lemma_no_entry(diffs[last].1, diffs[i].1[j].0);
        }
        assert forall|h: int, k: int|
            i < h < t.len() && t[h].0 == t[i].0 && 0 <= k < t[h].1.len() implies (
        #[trigger] t[h].1[k]).0 != t[i].1[j].0 by {
            assert(diffs[h].1[k].0 != diffs[i].1[j].0);
        }
        lemma_last_write(t, i, j);
    }
}

/// A key of a contract that no entry of a block has gets no value.
proof fn lemma_no_write(
    diffs: Seq<(ContractAddress, Seq<(StorageKey, StarkFelt)>)>,
    address: ContractAddress,
    key: StorageKey,
)
    requires
        forall|i: int, j: int|
            0 <= i < diffs.len() && diffs[i].0 == address && 0 <= j < diffs[i].1.len() ==> (
            #[trigger] diffs[i].1[j]).0 != key,
    ensures
        last_write(diffs, address, key) is None,
    decreases diffs.len(),
{
    if diffs.len() > 0 {
        let t = diffs.drop_last();
        let last = diffs.len() - 1;
        assert(diffs.last() == diffs[last]);
        if diffs[last].0 == address {
            assert forall|j: int| 0 <= j < diffs[last].1.len() implies (
            #[trigger] diffs[last].1[j]).0 != key by {}
            lemma_no_entry(diffs[last].1, key);
        }
        assert forall|i: int, j: int|
            0 <= i < t.len() && t[i].0 == address && 0 <= j < t[i].1.len() implies (
        #[trigger] t[i].1[j]).0 != key by {
            assert(diffs[i].1[j].0 != key);
        }
        lemma_no_write(t, address, key);
    }
}

/// Every value that the block sets, zero as well as any other, is in the row of its contract, its
/// key and the block, if no later entry of the block sets the key again. No other value changes.
pub proof fn law_append_writes_storage(s: StateView, b: BlockNumber, diff: StateDiffForwardView)
    ensures
        ({
            let t = s.append(b, diff);
            let diffs = diff.storage_diffs;
            &&& forall|i: int, j: int| #[trigger]
                is_last_write(diffs, i, j) ==> {
                    &&& t.contract_storage.contains_key((diffs[i].0, diffs[i].1[j].0, b))
                    &&& t.contract_storage[(diffs[i].0, diffs[i].1[j].0, b)] == diffs[i].1[j].1
                }
            &&& forall|a: ContractAddress, k: StorageKey, c: BlockNumber|
                c != b || (forall|i: int, j: int|
                    0 <= i < diffs.len() && diffs[i].0 == a && 0 <= j < diffs[i].1.len() ==> (
                    #[trigger] diffs[i].1[j]).0 != k) ==> {
                    &&& #[trigger] t.contract_storage.contains_key((a, k, c))
                        <==> s.contract_storage.contains_key((a, k, c))
                    &&& s.contract_storage.contains_key((a, k, c)) ==> t.contract_storage[(a, k, c)]
                        == s.contract_storage[(a, k, c)]
                }
        }),
{
    let t = s.append(b, diff);
    let diffs = diff.storage_diffs;
    assert forall|i: int, j: int| #[trigger] is_last_write(diffs, i, j) implies {
        &&& t.contract_storage.contains_key((diffs[i].0, diffs[i].1[j].0, b))
        &&& t.contract_storage[(diffs[i].0, diffs[i].1[j].0, b)] == diffs[i].1[j].1
    } by {
        lemma_last_write(diffs, i, j);
    }
    assert forall|a: ContractAddress, k: StorageKey, c: BlockNumber|
        c != b || (forall|i: int, j: int|
            0 <= i < diffs.len() && diffs[i].0 == a && 0 <= j < diffs[i].1.len() ==> (
            #[trigger] diffs[i].1[j]).0 != k) implies {
        &&& #[trigger] t.contract_storage.contains_key((a, k, c))
            <==> s.contract_storage.contains_key((a, k, c))
        &&& s.contract_storage.contains_key((a, k, c)) ==> t.contract_storage[(a, k, c)]
            == s.contract_storage[(a, k, c)]
    } by {
        if c == b {
            lemma_no_write(diffs, a, k);
        }
    }
}

/// Where a block sets a key of a contract, and no later entry of the block sets it again, the key
/// reads as that value in every state after the block, for every value, zero included. The key has
/// no value of a later block.
pub proof fn law_written_values_are_read(
    s: StateView,
    b: BlockNumber,
    diff: StateDiffForwardView,
    i: int,
    j: int,
    state: StateNumber,
)
    requires
        0 <= i < diff.storage_diffs.len(),
        0 <= j < diff.storage_diffs[i].1.len(),
        forall|k: int|
            j < k < diff.storage_diffs[i].1.len() ==> (#[trigger] diff.storage_diffs[i].1[k]).0
                != diff.storage_diffs[i].1[j].0,
        forall|h: int, k: int|
            i < h < diff.storage_diffs.len() && diff.storage_diffs[h].0 == diff.storage_diffs[i].0
                && 0 <= k < diff.storage_diffs[h].1.len() ==> (
            #[trigger] diff.storage_diffs[h].1[k]).0 != diff.storage_diffs[i].1[j].0,
        b.0 < state.0.0,
        forall|c: BlockNumber|
            b.0 < c.0 < state.0.0 ==> !#[trigger] s.contract_storage.contains_key(
                (diff.storage_diffs[i].0, diff.storage_diffs[i].1[j].0, c),
            ),
    ensures
        s.append(b, diff).readable().storage_at(
            state,
            diff.storage_diffs[i].0,
            diff.storage_diffs[i].1[j].0,
        ) == diff.storage_diffs[i].1[j].1,
{
    let t = s.append(b, diff);
    let a = diff.storage_diffs[i].0;
    let k = diff.storage_diffs[i].1[j].0;
    assert(is_last_write(diff.storage_diffs, i, j));
    law_append_writes_storage(s, b, diff);
    assert forall|c: BlockNumber| b.0 < c.0 < state.0.0 implies
        !#[trigger] t.contract_storage.contains_key((a, k, c)) by {
        assert(!s.contract_storage.contains_key((a, k, c)));
    }
    law_storage_is_latest(t.readable(), state, a, k, b);
}

/// Every contract that the block deploys has a row with the block and with the class that the state
/// diff pairs with its address. Other contracts stay as they were.
pub proof fn law_append_writes_contracts(s: StateView, b: BlockNumber, diff: StateDiffForwardView)
    requires
        forall|i: int, j: int|
            0 <= i < j < diff.deployed_contracts.len() ==> (#[trigger] diff.deployed_contracts[i]).0
                != (#[trigger] diff.deployed_contracts[j]).0,
    ensures
        ({
            let t = s.append(b, diff);
            let deployed = diff.deployed_contracts;
            &&& forall|i: int|
                0 <= i < deployed.len() ==> {
                    &&& t.contracts.contains_key((#[trigger] deployed[i]).0)
                    &&& t.contracts[deployed[i].0].block_number == b
                    &&& t.contracts[deployed[i].0].class_hash == deployed[i].1
                }
            &&& forall|a: ContractAddress|
                (forall|i: int| 0 <= i < deployed.len() ==> (#[trigger] deployed[i]).0 != a) ==> {
                    &&& #[trigger] t.contracts.contains_key(a) <==> s.contracts.contains_key(a)
                    &&& s.contracts.contains_key(a) ==> t.contracts[a] == s.contracts[a]
                }
        }),
{
    let t = s.append(b, diff);
    let deployed = diff.deployed_contracts;
    assert forall|i: int| 0 <= i < deployed.len() implies {
        &&& t.contracts.contains_key((#[trigger] deployed[i]).0)
        &&& t.contracts[deployed[i].0].block_number == b
        &&& t.contracts[deployed[i].0].class_hash == deployed[i].1
    } by {
        lemma_value_of(deployed, i);
    }
}

/// Adding a block keeps its state diff as it was given and those of other blocks, and moves the
/// state marker behind it.
pub proof fn law_append_keeps_state_diff(s: StateView, b: BlockNumber, diff: StateDiffForwardView)
    requires
        b.0 < u64::MAX,
    ensures
        ({
            let t = s.append(b, diff);
            &&& t.state_diffs.contains_key(b)
            &&& t.state_diffs[b].deployed_contracts == diff.deployed_contracts
            &&& t.state_diffs[b].storage_diffs == diff.storage_diffs
            &&& forall|c: BlockNumber|
                c != b ==> {
                    &&& #[trigger] t.state_diffs.contains_key(c) <==> s.state_diffs.contains_key(c)
                    &&& t.state_diffs[c] == s.state_diffs[c]
                }
            &&& t.markers.contains_key(MarkerKind::State)
            &&& t.markers[MarkerKind::State].0 == b.0 + 1
            &&& t.markers.contains_key(MarkerKind::CompiledClass) == s.markers.contains_key(
                MarkerKind::CompiledClass,
            )
            &&& t.markers[MarkerKind::CompiledClass] == s.markers[MarkerKind::CompiledClass]
        }),
{
}

/// The marker is what its row says, and block zero without a row.
pub proof fn law_marker(s: StateView)
    ensures
        s.markers.contains_key(MarkerKind::State) ==> s.marker() == s.markers[MarkerKind::State],
        !s.markers.contains_key(MarkerKind::State) ==> s.marker().0 == 0,
{
}

/// Contracts that are new and distinct can be deployed.
proof fn lemma_new_contracts(
    contracts: Map<ContractAddress, IndexedDeployedContract>,
    s: Seq<(ContractAddress, ClassHash)>,
)
    requires
        forall|i: int| 0 <= i < s.len() ==> !contracts.contains_key((#[trigger] s[i]).0),
        forall|i: int, j: int| 0 <= i < j < s.len() ==> (#[trigger] s[i]).0 != (#[trigger] s[j]).0,
    ensures
        deploy_error(contracts, s) is None,
    decreases s.len(),
{
    if s.len() > 0 {
        let t = s.drop_last();
        assert forall|i: int| 0 <= i < t.len() implies !contracts.contains_key(
            (#[trigger] t[i]).0,
        ) by {
            assert(t[i] == s[i]);
        }
        assert forall|i: int, j: int| 0 <= i < j < t.len() implies (#[trigger] t[i]).0 != (
        #[trigger] t[j]).0 by {
            assert(t[i] == s[i] && t[j] == s[j]);
        }
        lemma_new_contracts(contracts, t);
        assert(!has_key(t, s.last().0)) by {
            if has_key(t, s.last().0) {
                let i = key_index(t, s.last().0);
                assert(t[i].0 == s.last().0);
                assert(s[i].0 == s[s.len() - 1].0);
            }
        }
        assert(!contracts.contains_key(s[s.len() - 1].0));
    }
}

/// A block is accepted exactly if it is the next one, it has no state diff, no contract that it
/// deploys is there already, and it deploys none twice.
pub proof fn law_append_accepted_exactly(s: StateView, b: BlockNumber, diff: StateDiffForwardView)
    ensures
        s.append_error(b, diff) is None <==> {
            &&& if s.markers.contains_key(MarkerKind::State) {
                s.markers[MarkerKind::State] == b
            } else {
                b.0 == 0
            }
            &&& !s.state_diffs.contains_key(b)
            &&& forall|i: int|
                0 <= i < diff.deployed_contracts.len() ==> !s.contracts.contains_key(
                    (#[trigger] diff.deployed_contracts[i]).0,
                )
            &&& forall|i: int, j: int|
                0 <= i < j < diff.deployed_contracts.len() ==> (
                #[trigger] diff.deployed_contracts[i]).0 != (
                #[trigger] diff.deployed_contracts[j]).0
        },
{
    let deployed = diff.deployed_contracts;
    if deploy_error(s.contracts, deployed) is None {
        assert forall|i: int| 0 <= i < deployed.len() implies !s.contracts.contains_key(
            (#[trigger] deployed[i]).0,
        ) by {
            lemma_deployed_are_new(s.contracts, deployed, i);
        }
        assert forall|i: int, j: int| 0 <= i < j < deployed.len() implies (
        #[trigger] deployed[i]).0 != (#[trigger] deployed[j]).0 by {
            lemma_deployed_are_distinct(s.contracts, deployed, i, j);
        }
    }
    if (forall|i: int|
        0 <= i < deployed.len() ==> !s.contracts.contains_key((#[trigger] deployed[i]).0))
        && forall|i: int, j: int|
        0 <= i < j < deployed.len() ==> (#[trigger] deployed[i]).0 != (#[trigger] deployed[j]).0 {
        lemma_new_contracts(s.contracts, deployed);
    }
}

/// A block that is not the next one is refused, with the next one and the given one. The next block
/// is refused if it has a state diff already, and else by the address of the first contract that is
/// there already or comes a second time.
pub proof fn law_append_refused(
    s: StateView,
    b: BlockNumber,
    diff: StateDiffForwardView,
    i: int,
    j: int,
)
    ensures
        ({
            let deployed = diff.deployed_contracts;
            let next = if s.markers.contains_key(MarkerKind::State) {
                s.markers[MarkerKind::State]
            } else {
                BlockNumber(0)
            };
            &&& next != b ==> s.append_error(b, diff) == Some(
                StorageError::MarkerMismatch { expected: next, found: b },
            )
            &&& next == b && s.state_diffs.contains_key(b) ==> s.append_error(b, diff) == Some(
                StorageError::InnerError(DbError::KeyExist),
            )
            &&& next == b && !s.state_diffs.contains_key(b) && 0 <= i < deployed.len() && (
            s.contracts.contains_key(deployed[i].0) || (0 <= j < i && deployed[j].0
                == deployed[i].0)) && (forall|k: int|
                0 <= k < i ==> !s.contracts.contains_key((#[trigger] deployed[k]).0)) && (forall|
                k: int,
                l: int,
            |
                0 <= k < l < i ==> (#[trigger] deployed[k]).0 != (#[trigger] deployed[l]).0)
                ==> s.append_error(b, diff) == Some(
                StorageError::ContractAlreadyExists { address: deployed[i].0 },
            )
        }),
{
    let deployed = diff.deployed_contracts;
    if 0 <= i < deployed.len() && (s.contracts.contains_key(deployed[i].0) || (0 <= j < i
        && deployed[j].0 == deployed[i].0)) && (forall|k: int|
        0 <= k < i ==> !s.contracts.contains_key((#[trigger] deployed[k]).0)) && (forall|
        k: int,
        l: int,
    |
        0 <= k < l < i ==> (#[trigger] deployed[k]).0 != (#[trigger] deployed[l]).0) {
        let front = deployed.take(i);
        let more = deployed.take(i + 1);
        assert forall|k: int| 0 <= k < front.len() implies !s.contracts.contains_key(
            (#[trigger] front[k]).0,
        ) by {
            assert(front[k] == deployed[k]);
        }
        assert forall|k: int, l: int| 0 <= k < l < front.len() implies (#[trigger] front[k]).0 != (
        #[trigger] front[l]).0 by {
            assert(front[k] == deployed[k] && front[l] == deployed[l]);
        }
        lemma_new_contracts(s.contracts, front);
        assert(more.drop_last() =~= front);
        assert(more.last() == deployed[i]);
        if 0 <= j < i && deployed[j].0 == deployed[i].0 {
            assert(front[j].0 == deployed[i].0);
        }
        assert(deploy_error(s.contracts, more) == Some(
            StorageError::ContractAlreadyExists { address: deployed[i].0 },
        ));
        lemma_deploy_error_stays(s.contracts, deployed, i + 1);
    }
}

/// A contract has the class of its row in the states behind the block of its row, and in no other.
pub proof fn law_contracts_from_their_block_on(
    r: ReaderView,
    state: StateNumber,
    address: ContractAddress,
)
    ensures
        r.class_hash_at(state, address) is Some <==> r.contracts.contains_key(address)
            && r.contracts[address].block_number.0 < state.0.0,
        r.class_hash_at(state, address) matches Some(class_hash) ==> class_hash
            == r.contracts[address].class_hash,
{
}

/// A storage key of a contract without a row in a block before the state reads as zero, whatever
/// the contract and the key. Else it reads as its last row before the state says.
pub proof fn law_storage_is_latest(
    r: ReaderView,
    state: StateNumber,
    address: ContractAddress,
    key: StorageKey,
    b: BlockNumber,
)
    ensures
        (forall|c: BlockNumber|
            c.0 < state.0.0 ==> !#[trigger] r.contract_storage.contains_key((address, key, c)))
            ==> r.storage_at(state, address, key) == (0u128, 0u128),
        r.contract_storage.contains_key((address, key, b)) && b.0 < state.0.0 && (forall|
            c: BlockNumber,
        |
            b.0 < c.0 < state.0.0 ==> !#[trigger] r.contract_storage.contains_key(
                (address, key, c),
            )) ==> r.storage_at(state, address, key) == r.contract_storage[(address, key, b)],
{
    let history = storage_history_of(r.contract_storage, address, key);
    if forall|c: BlockNumber|
        c.0 < state.0.0 ==> !#[trigger] r.contract_storage.contains_key((address, key, c)) {
        lemma_latest_none(history, state.0.0 as nat);
    }
    if r.contract_storage.contains_key((address, key, b)) && b.0 < state.0.0 && (forall|
        c: BlockNumber,
    |
        b.0 < c.0 < state.0.0 ==> !#[trigger] r.contract_storage.contains_key((address, key, c))) {
        lemma_latest_is(history, b, state.0.0 as nat);
    }
}

/// In the empty state no table has a row, every storage key reads as zero, and there are no
/// contracts.
pub proof fn law_empty_state_reads(
    state: StateNumber,
    address: ContractAddress,
    key: StorageKey,
    kind: MarkerKind,
    b: BlockNumber,
)
    ensures
        !StateView::empty().markers.contains_key(kind),
        !StateView::empty().contracts.contains_key(address),
        !StateView::empty().contract_storage.contains_key((address, key, b)),
        !StateView::empty().state_diffs.contains_key(b),
        StateView::empty().readable().storage_at(state, address, key) == (0u128, 0u128),
        StateView::empty().readable().class_hash_at(state, address) is None,
{
    law_storage_is_latest(StateView::empty().readable(), state, address, key, b);
}

/// Tables are read one by one, each as its own map, and the state diffs by what they hold. A reader
/// looks at the contracts and their storage.
pub proof fn law_tables_as_maps<Mode: TransactionKind>(tables: Tables, txn: StorageTxn<Mode>)
    ensures
        tables@.markers == tables.markers@,
        tables@.contracts == tables.contracts@,
        tables@.contract_storage == tables.contract_storage@,
        forall|b: BlockNumber| #[trigger]
            tables@.state_diffs.contains_key(b) <==> tables.state_diffs@.contains_key(b),
        forall|b: BlockNumber|
            tables.state_diffs@.contains_key(b) ==> #[trigger] tables@.state_diffs[b]
                == tables.state_diffs@[b]@,
        tables@.readable().contracts == tables.contracts@,
        tables@.readable().contract_storage == tables.contract_storage@,
        txn.state() == txn@,
{
}

/// A state diff is read position by position.
pub proof fn law_state_diff_positions(
    diff: StateDiffForward,
    storage_diff: StorageDiff,
    contract: DeployedContract,
    entry: StorageEntry,
)
    ensures
        contract@ == (contract.address, contract.class_hash),
        entry@ == (entry.key, entry.value),
        storage_diff@.0 == storage_diff.address,
        storage_diff@.1.len() == storage_diff.diff.len(),
        forall|i: int|
            0 <= i < storage_diff.diff.len() ==> #[trigger] storage_diff@.1[i] == (
                storage_diff.diff[i].key,
                storage_diff.diff[i].value,
            ),
        diff@.deployed_contracts.len() == diff.deployed_contracts.len(),
        forall|i: int|
            0 <= i < diff.deployed_contracts.len() ==> #[trigger] diff@.deployed_contracts[i] == (
                diff.deployed_contracts[i].address,
                diff.deployed_contracts[i].class_hash,
            ),
        diff@.storage_diffs.len() == diff.storage_diffs.len(),
        forall|i: int|
            0 <= i < diff.storage_diffs.len() ==> #[trigger] diff@.storage_diffs[i]
                == diff.storage_diffs[i]@,
{
}

} // verus!
