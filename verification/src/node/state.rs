//! Reading and writing the node's state.
use std::marker::PhantomData;

use vstd::prelude::*;

use crate::block::{BlockNumber, StateNumber};
use crate::felt::{ClassHash, ContractAddress, StarkFelt, StorageKey};
use crate::state::reader::latest_value;
use crate::state::write::update_marker;
use crate::storage::{
    ContractStorageTable, MarkerKind, StorageError, StorageResult, TransactionKind, RW,
};

#[allow(unused_imports)]
use super::model::ReaderView;
use super::state_diff::StateDiffForward;
#[allow(unused_imports)]
use super::storage::StateView;
use super::storage::{ContractsTable, StorageTxn};
use super::write::{write_deployed_contracts, write_storage_diffs};

verus! {

/// A storage that holds the node's state.
pub trait StateStorage: Sized {
    /// The tables of the state.
    spec fn state(&self) -> StateView;
}

/// A storage that the state can be read from.
pub trait StateStorageReader<Mode: TransactionKind>: StateStorage {
    /// The state marker: the first block that is not there yet.
    fn get_state_marker(&self) -> (r: StorageResult<BlockNumber>)
        ensures
            r == Ok::<BlockNumber, StorageError>(self.state().marker()),
    ;

    /// The state diff of a block, or `None` if there is none.
    fn get_state_diff(&self, block_number: BlockNumber) -> (r: StorageResult<
        Option<StateDiffForward>,
    >)
        ensures
            match r {
                Ok(Some(diff)) => self.state().state_diffs.get(block_number) == Some(diff@),
                Ok(None) => self.state().state_diffs.get(block_number) is None,
                Err(_) => false,
            },
    ;

    /// A reader of the state.
    fn get_state_reader(&self) -> (r: StorageResult<StateReader<'_, Mode>>)
        ensures
            r matches Ok(reader) && reader@ == self.state().readable(),
    ;
}

/// A storage that the state can be written to. The storage is consumed, and returned on success:
/// after a failure there is nothing left to commit.
pub trait StateStorageWriter: StateStorage {
    /// Adds the state diff of the next block.
    fn append_state_diff(self, block_number: BlockNumber, state_diff: &StateDiffForward) -> (r:
        StorageResult<Self>)
        requires
            self.state().marker() == block_number ==> block_number.0 < u64::MAX,
        ensures
            match r {
                Ok(txn) => {
                    &&& self.state().append_error(block_number, state_diff@) is None
                    &&& txn.state() == self.state().append(block_number, state_diff@)
                },
                Err(e) => self.state().append_error(block_number, state_diff@) == Some(e),
            },
    ;
}

impl<Mode: TransactionKind> StateStorage for StorageTxn<Mode> {
    open spec fn state(&self) -> StateView {
        self@
    }
}

impl<Mode: TransactionKind> StateStorageReader<Mode> for StorageTxn<Mode> {
    fn get_state_marker(&self) -> (r: StorageResult<BlockNumber>) {
        match self.tables().markers.get(&MarkerKind::State) {
            Some(marker) => Ok(*marker),
            None => Ok(BlockNumber::default()),
        }
    }

    fn get_state_diff(&self, block_number: BlockNumber) -> (r: StorageResult<
        Option<StateDiffForward>,
    >) {
        match self.tables().state_diffs.get(&block_number) {
            Some(state_diff) => Ok(Some(state_diff.clone())),
            None => Ok(None),
        }
    }

    fn get_state_reader(&self) -> (r: StorageResult<StateReader<'_, Mode>>) {
        StateReader::new(self)
    }
}

impl StateStorageWriter for StorageTxn<RW> {
    fn append_state_diff(self, block_number: BlockNumber, state_diff: &StateDiffForward) -> (r:
        StorageResult<Self>) {
        let mut tables = self.into_tables();
        let ghost before = tables@;
        update_marker(&mut tables.markers, block_number)?;
        // Write the state diff.
        match tables.state_diffs.insert(block_number, state_diff.clone()) {
            Ok(()) => {},
            Err(e) => {
                return Err(StorageError::InnerError(e));
            },
        }
        // Write the state.
        write_deployed_contracts(state_diff, block_number, &mut tables.contracts)?;
        write_storage_diffs(state_diff, block_number, &mut tables.contract_storage);
        assert(tables@ =~= before.append(block_number, state_diff@));
        Ok(StorageTxn::begin(tables))
    }
}

/// A single coherent state at a single point in time.
pub struct StateReader<'env, Mode: TransactionKind> {
    mode: PhantomData<Mode>,
    contracts_table: &'env ContractsTable,
    storage_table: &'env ContractStorageTable,
}

impl<'env, Mode: TransactionKind> View for StateReader<'env, Mode> {
    type V = ReaderView;

    closed spec fn view(&self) -> ReaderView {
        ReaderView {
            contracts: self.contracts_table@,
            contract_storage: self.storage_table@,
        }
    }
}

impl<'env, Mode: TransactionKind> StateReader<'env, Mode> {
    /// A reader of the tables of a storage transaction.
    pub fn new(txn: &'env StorageTxn<Mode>) -> (r: StorageResult<Self>)
        ensures
            r matches Ok(reader) && reader@ == txn@.readable(),
    {
        let tables = txn.tables();
        Ok(
            StateReader {
                mode: PhantomData,
                contracts_table: &tables.contracts,
                storage_table: &tables.contract_storage,
            },
        )
    }

    /// The class hash of a contract at a state, or `None` if the contract is not deployed there.
    pub fn get_class_hash_at(&self, state_number: StateNumber, address: &ContractAddress) -> (r:
        StorageResult<Option<ClassHash>>)
        ensures
            r == Ok::<Option<ClassHash>, StorageError>(self@.class_hash_at(state_number, *address)),
    {
        if let Some(value) = self.contracts_table.get(address) {
            if state_number.is_after(value.block_number) {
                return Ok(Some(value.class_hash));
            }
        }
        Ok(None)
    }

    /// The value of a storage key of a contract at a state: zero where it has none.
    pub fn get_storage_at(
        &self,
        state_number: StateNumber,
        address: &ContractAddress,
        key: &StorageKey,
    ) -> (r: StorageResult<StarkFelt>)
        ensures
            r == Ok::<StarkFelt, StorageError>(self@.storage_at(state_number, *address, *key)),
    {
        Ok(latest_value(self.storage_table, state_number, address, key))
    }
}

} // verus!
