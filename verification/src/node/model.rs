//! What the operations on the node's state mean, over maps and sequences.
use vstd::prelude::*;

use crate::block::{BlockNumber, StateNumber};
use crate::db::DbError;
use crate::felt::{ClassHash, ContractAddress, StarkFelt, StorageKey};
#[allow(unused_imports)]
use crate::index_map::{has_key, value_of};
#[allow(unused_imports)]
use crate::state::model::{marker_in, storage_value_at};
use crate::storage::{MarkerKind, StorageError};

use super::state_diff::StateDiffForwardView;
use super::storage::{IndexedDeployedContract, StateView};

verus! {

/// The first contract that cannot be deployed, if any: it is there already, or it comes a second
/// time.
pub open spec fn deploy_error(
    contracts: Map<ContractAddress, IndexedDeployedContract>,
    s: Seq<(ContractAddress, ClassHash)>,
) -> Option<StorageError>
    decreases s.len(),
{
    if s.len() == 0 {
        None
    } else {
        match deploy_error(contracts, s.drop_last()) {
            Some(e) => Some(e),
            None => if contracts.contains_key(s.last().0) || has_key(s.drop_last(), s.last().0) {
                Some(StorageError::ContractAlreadyExists { address: s.last().0 })
            } else {
                None
            },
        }
    }
}

/// Whether the contract at position `j` is the first one that cannot be deployed.
pub open spec fn refused_contract_at(
    contracts: Map<ContractAddress, IndexedDeployedContract>,
    s: Seq<(ContractAddress, ClassHash)>,
    j: int,
) -> bool {
    &&& 0 <= j < s.len()
    &&& deploy_error(contracts, s.take(j)) is None
    &&& contracts.contains_key(s[j].0) || has_key(s.take(j), s[j].0)
}

/// The rows that note the contracts as deployed in block `b`.
pub open spec fn indexed_contracts(
    s: Seq<(ContractAddress, ClassHash)>,
    b: BlockNumber,
) -> Map<ContractAddress, IndexedDeployedContract> {
    Map::new(
        |k: ContractAddress| has_key(s, k),
        |k: ContractAddress|
            IndexedDeployedContract { block_number: b, class_hash: value_of(s, k) },
    )
}

/// The last value that the entries set the key to.
pub open spec fn last_entry(s: Seq<(StorageKey, StarkFelt)>, key: StorageKey) -> Option<StarkFelt>
    decreases s.len(),
{
    if s.len() == 0 {
        None
    } else if s.last().0 == key {
        Some(s.last().1)
    } else {
        last_entry(s.drop_last(), key)
    }
}

/// The last value that the storage diffs set the key of the contract to.
pub open spec fn last_write(
    s: Seq<(ContractAddress, Seq<(StorageKey, StarkFelt)>)>,
    address: ContractAddress,
    key: StorageKey,
) -> Option<StarkFelt>
    decreases s.len(),
{
    if s.len() == 0 {
        None
    } else if s.last().0 == address && last_entry(s.last().1, key) is Some {
        last_entry(s.last().1, key)
    } else {
        last_write(s.drop_last(), address, key)
    }
}

/// The rows that give each storage key of the contract its value from block `b` on.
pub open spec fn entry_rows_at(
    address: ContractAddress,
    s: Seq<(StorageKey, StarkFelt)>,
    b: BlockNumber,
) -> Map<(ContractAddress, StorageKey, BlockNumber), StarkFelt> {
    Map::new(
        |k: (ContractAddress, StorageKey, BlockNumber)|
            k.0 == address && k.2 == b && last_entry(s, k.1) is Some,
        |k: (ContractAddress, StorageKey, BlockNumber)| last_entry(s, k.1)->0,
    )
}

/// The rows that give each storage key of each contract its value from block `b` on.
pub open spec fn write_rows_at(
    s: Seq<(ContractAddress, Seq<(StorageKey, StarkFelt)>)>,
    b: BlockNumber,
) -> Map<(ContractAddress, StorageKey, BlockNumber), StarkFelt> {
    Map::new(
        |k: (ContractAddress, StorageKey, BlockNumber)|
            k.2 == b && last_write(s, k.0, k.1) is Some,
        |k: (ContractAddress, StorageKey, BlockNumber)| last_write(s, k.0, k.1)->0,
    )
}

/// The tables that a reader of the state looks at.
#[verifier::ext_equal]
pub ghost struct ReaderView {
    pub contracts: Map<ContractAddress, IndexedDeployedContract>,
    pub contract_storage: Map<(ContractAddress, StorageKey, BlockNumber), StarkFelt>,
}

impl ReaderView {
    /// The class of the contract in the state, if the contract is deployed there.
    pub open spec fn class_hash_at(self, state: StateNumber, address: ContractAddress) -> Option<
        ClassHash,
    > {
        if self.contracts.contains_key(address) && state.covers(
            self.contracts[address].block_number,
        ) {
            Some(self.contracts[address].class_hash)
        } else {
            None
        }
    }

    /// The value of the storage key of the contract in the state: zero where it never got one.
    pub open spec fn storage_at(
        self,
        state: StateNumber,
        address: ContractAddress,
        key: StorageKey,
    ) -> StarkFelt {
        storage_value_at(self.contract_storage, state, address, key)
    }
}

impl StateView {
    /// What a reader of the state looks at.
    pub open spec fn readable(self) -> ReaderView {
        ReaderView { contracts: self.contracts, contract_storage: self.contract_storage }
    }

    /// The state marker: the first block that is not there yet.
    pub open spec fn marker(self) -> BlockNumber {
        marker_in(self.markers, MarkerKind::State)
    }

    /// The first thing that stands against the state diff `diff` of block `b`, if any: the block
    /// is not the next one; the block has a state diff already; a contract is deployed already.
    pub open spec fn append_error(self, b: BlockNumber, diff: StateDiffForwardView) -> Option<
        StorageError,
    > {
        if self.marker() != b {
            Some(StorageError::MarkerMismatch { expected: self.marker(), found: b })
        } else if self.state_diffs.contains_key(b) {
            Some(StorageError::InnerError(DbError::KeyExist))
        } else {
            deploy_error(self.contracts, diff.deployed_contracts)
        }
    }

    /// The state after the state diff `diff` of block `b`.
    pub open spec fn append(self, b: BlockNumber, diff: StateDiffForwardView) -> StateView {
        StateView {
            markers: self.markers.insert(MarkerKind::State, BlockNumber((b.0 + 1) as u64)),
            contracts: self.contracts.union_prefer_right(
                indexed_contracts(diff.deployed_contracts, b),
            ),
            contract_storage: self.contract_storage.union_prefer_right(
                write_rows_at(diff.storage_diffs, b),
            ),
            state_diffs: self.state_diffs.insert(b, diff),
        }
    }
}

} // verus!
