//! Storage transactions of the node: the tables and the markers.
use std::marker::PhantomData;

use vstd::prelude::*;

use crate::block::BlockNumber;
use crate::db::TableHandle;
use crate::felt::{ClassHash, ContractAddress, StarkFelt, StorageKey};
use crate::storage::{ContractStorageTable, MarkersTable, TransactionKind};
#[allow(unused_imports)]
use crate::storage::MarkerKind;

use super::state_diff::StateDiffForward;
#[allow(unused_imports)]
use super::state_diff::StateDiffForwardView;

verus! {

/// A deployed contract: the block that deployed it, and its class.
#[derive(Debug, Clone, Copy, PartialEq, Eq)]
pub struct IndexedDeployedContract {
    pub block_number: BlockNumber,
    pub class_hash: ClassHash,
}

/// The deployed contracts.
pub type ContractsTable = TableHandle<ContractAddress, IndexedDeployedContract>;

/// The state diffs of the blocks.
pub type StateDiffsTable = TableHandle<BlockNumber, StateDiffForward>;

/// The tables of the state.
pub struct Tables {
    pub markers: MarkersTable,
    pub contracts: ContractsTable,
    pub contract_storage: ContractStorageTable,
    pub state_diffs: StateDiffsTable,
}

/// The tables of the state, each as a map.
#[verifier::ext_equal]
pub ghost struct StateView {
    pub markers: Map<MarkerKind, BlockNumber>,
    pub contracts: Map<ContractAddress, IndexedDeployedContract>,
    pub contract_storage: Map<(ContractAddress, StorageKey, BlockNumber), StarkFelt>,
    pub state_diffs: Map<BlockNumber, StateDiffForwardView>,
}

impl View for Tables {
    type V = StateView;

    open spec fn view(&self) -> StateView {
        StateView {
            markers: self.markers@,
            contracts: self.contracts@,
            contract_storage: self.contract_storage@,
            state_diffs: self.state_diffs@.map_values(|diff: StateDiffForward| diff@),
        }
    }
}

impl StateView {
    /// The state in which no table has a row.
    pub open spec fn empty() -> StateView {
        StateView {
            markers: Map::empty(),
            contracts: Map::empty(),
            contract_storage: Map::empty(),
            state_diffs: Map::empty(),
        }
    }
}

impl Tables {
    /// Tables without rows.
    pub fn new() -> (r: Tables)
        ensures
            r@ == StateView::empty(),
    {
        let r = Tables {
            markers: TableHandle::new(),
            contracts: TableHandle::new(),
            contract_storage: TableHandle::new(),
            state_diffs: TableHandle::new(),
        };
        assert(r@ =~= StateView::empty());
        r
    }
}

/// A storage transaction: the tables as it sees them.
pub struct StorageTxn<Mode: TransactionKind> {
    mode: PhantomData<Mode>,
    tables: Tables,
}

impl<Mode: TransactionKind> View for StorageTxn<Mode> {
    type V = StateView;

    closed spec fn view(&self) -> StateView {
        self.tables@
    }
}

impl<Mode: TransactionKind> StorageTxn<Mode> {
    /// A transaction on the tables.
    pub fn begin(tables: Tables) -> (r: Self)
        ensures
            r@ == tables@,
    {
        StorageTxn { mode: PhantomData, tables }
    }

    /// The tables as the transaction sees them.
    pub fn tables(&self) -> (r: &Tables)
        ensures
            r@ == self@,
    {
        &self.tables
    }

    /// The tables at the end of the transaction.
    pub fn into_tables(self) -> (r: Tables)
        ensures
            r@ == self@,
    {
        self.tables
    }
}

} // verus!
