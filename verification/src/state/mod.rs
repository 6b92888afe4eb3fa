//! The state of the chain, block by block.
//!
//! The tables of the state:
//! * `declared_classes`: class hash to the definition of a Cairo 1 class, and
//!   `declared_classes_block`: class hash to the block that declared it.
//! * `deprecated_declared_classes`: class hash to the definition of a Cairo 0 class and the block
//!   that declared it.
//! * `casms`: class hash to a compiled Cairo 1 class.
//! * `deployed_contracts`: contract address and block to class hash. Each row says at which block
//!   the contract was deployed, or its class replaced, and with what class.
//! * `contract_storage`: contract address, storage key and block to value. Each row says that at
//!   the block the key was changed to the value. To look up the value at a block, the closest row
//!   from the left is taken, which holds the latest change before it.
//! * `nonces`: contract address and block to nonce. Each row says that at the block the nonce of
//!   the contract was changed.
//! * `state_diffs`: block to its state diff.
//! * `markers`: the first block that is not there yet.

pub(crate) mod delete;
pub mod history;
pub mod laws;
pub(crate) mod lemmas;
pub mod lookups;
pub(crate) mod merge;
pub mod model;
pub mod reader;
pub mod refusals;
pub mod rows;
pub(crate) mod write;
pub mod writer;

use vstd::prelude::*;

use cairo_lang_starknet::casm_contract_class::CasmContractClass;
use indexmap::IndexMap;
use starknet_api::deprecated_contract_class::ContractClass as DeprecatedContractClass;
use starknet_api::state::ContractClass;

use crate::block::BlockNumber;
use crate::felt::ClassHash;
#[allow(unused_imports)]
use crate::index_map::{casm_entries, class_entries, deprecated_entries, distinct_keys};
use crate::state_diff::{StateDiff, ThinStateDiff};
#[allow(unused_imports)]
use crate::storage::{MarkerKind, StateView, StorageError};
use crate::storage::{StorageResult, StorageTxn, TransactionKind};

#[allow(unused_imports)]
use model::entries_map;
pub use reader::StateReader;

verus! {

/// What taking back a block removes: its state diff, and the definitions of its Cairo 1 classes,
/// of its Cairo 0 classes, and of its compiled classes.
pub type RevertedStateDiff = (
    ThinStateDiff,
    IndexMap<ClassHash, ContractClass>,
    IndexMap<ClassHash, DeprecatedContractClass>,
    IndexMap<ClassHash, CasmContractClass>,
);

/// A storage that holds the state.
pub trait StateStorage: Sized {
    /// The tables of the state.
    spec fn state(&self) -> StateView;
}

/// A storage that the state can be read from.
pub trait StateStorageReader<Mode: TransactionKind>: StateStorage {
    /// The state marker: the first block that is not there yet.
    fn get_state_marker(&self) -> (r: StorageResult<BlockNumber>)
        ensures
            r == Ok::<BlockNumber, StorageError>(self.state().marker(MarkerKind::State)),
    ;

    /// The state diff of a block, or `None` if there is none.
    fn get_state_diff(&self, block_number: BlockNumber) -> (r: StorageResult<Option<ThinStateDiff>>)
        ensures
            match r {
                Ok(Some(diff)) => self.state().state_diffs.contains_key(block_number) && diff@
                    == self.state().state_diffs[block_number],
                Ok(None) => !self.state().state_diffs.contains_key(block_number),
                Err(_) => false,
            },
    ;

    /// A reader of the state.
    fn get_state_reader(&self) -> (r: StorageResult<StateReader<'_, Mode>>)
        ensures
            r matches Ok(reader) && reader@ == self.state().readable(),
    ;
}

/// A storage that the state can be written to. The storage is consumed, and returned on success:
/// after a failure there is nothing left to commit.
pub trait StateStorageWriter: StateStorage {
    /// Adds the state diff of the next block. `deployed_contract_class_definitions` holds the
    /// definitions of the classes of deployed contracts that the state diff does not declare; only
    /// Cairo 0 classes can be declared in this way.
    fn append_state_diff(
        self,
        block_number: BlockNumber,
        state_diff: StateDiff,
        deployed_contract_class_definitions: IndexMap<ClassHash, DeprecatedContractClass>,
    ) -> (r: StorageResult<Self>)
        requires
            self.state().marker(MarkerKind::State) == block_number ==> block_number.0 < u64::MAX,
        ensures
            ({
                let definitions = deprecated_entries(deployed_contract_class_definitions);
                let error = self.state().append_error(block_number, state_diff@, definitions);
                match r {
                    Ok(txn) => {
                        &&& error is None
                        &&& state_diff@.valid()
                        &&& distinct_keys(definitions)
                        &&& txn.state() == self.state().append(
                            block_number,
                            state_diff@,
                            definitions,
                        )
                    },
                    Err(e) => error == Some(e),
                }
            }),
    ;

    /// Takes back the state diff of the last block, and returns what it held. Does nothing for
    /// another block.
    fn revert_state_diff(self, block_number: BlockNumber) -> (r: StorageResult<
        (Self, Option<RevertedStateDiff>),
    >)
        requires
            block_number.0 < u64::MAX,
            self.state().is_last(block_number) ==> self.state().has_block(block_number),
        ensures
            match r {
                Ok((txn, None)) => {
                    &&& !self.state().is_last(block_number)
                    &&& txn.state() == self.state()
                },
                Ok((txn, Some((diff, classes, deprecated_classes, casms)))) => {
                    &&& self.state().is_last(block_number)
                    &&& txn.state() == self.state().revert(block_number)
                    &&& diff@ == self.state().state_diffs[block_number]
                    &&& class_entries(classes) == self.state().reverted_classes(block_number)
                    &&& distinct_keys(deprecated_entries(deprecated_classes))
                    &&& entries_map(deprecated_entries(deprecated_classes))
                        == self.state().reverted_deprecated_classes(block_number)
                    &&& casm_entries(casms) == self.state().reverted_casms(block_number)
                },
                Err(_) => false,
            },
    ;
}

impl<Mode: TransactionKind> StateStorage for StorageTxn<Mode> {
    open spec fn state(&self) -> StateView {
        self@
    }
}

impl<Mode: TransactionKind> StateStorageReader<Mode> for StorageTxn<Mode> {
    fn get_state_marker(&self) -> (r: StorageResult<BlockNumber>) {
        match self.tables().markers.get(&MarkerKind::State) {
            Some(marker) => Ok(*marker),
            None => Ok(BlockNumber::default()),
        }
    }

    fn get_state_diff(&self, block_number: BlockNumber) -> (r: StorageResult<
        Option<ThinStateDiff>,
    >) {
        match self.tables().state_diffs.get(&block_number) {
            Some(state_diff) => Ok(Some(state_diff.clone())),
            None => Ok(None),
        }
    }

    fn get_state_reader(&self) -> (r: StorageResult<StateReader<'_, Mode>>) {
        StateReader::new(self)
    }
}

/// The state of a storage transaction is that of its tables.
pub proof fn law_state_of_transaction<Mode: TransactionKind>(txn: StorageTxn<Mode>)
    ensures
        txn.state() == txn@,
{
}

} // verus!
