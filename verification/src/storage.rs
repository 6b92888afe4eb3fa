//! Storage transactions: the tables, the markers and the errors.
use std::marker::PhantomData;

use vstd::prelude::*;

use cairo_lang_starknet::casm_contract_class::CasmContractClass;
use starknet_api::state::ContractClass;

use crate::block::BlockNumber;
use crate::classes::IndexedDeprecatedContractClass;
use crate::db::{DbError, TableHandle, TableKey};
use crate::felt::{ClassHash, ContractAddress, Nonce, StarkFelt, StorageKey};
use crate::state_diff::ThinStateDiff;
#[allow(unused_imports)]
use crate::state_diff::ThinStateDiffView;

verus! {

/// What a marker counts.
#[derive(Debug, Clone, Copy, PartialEq, Eq, Structural)]
pub enum MarkerKind {
    /// The state diffs.
    State,
    /// The compiled classes.
    CompiledClass,
}

impl TableKey for MarkerKind {
    open spec fn precedes(self, other: Self) -> bool {
        self is State && other is CompiledClass
    }

    proof fn lemma_total_order(a: Self, b: Self, c: Self) {
    }

    fn comes_before(&self, other: &Self) -> (r: bool) {
        match (self, other) {
            (MarkerKind::State, MarkerKind::CompiledClass) => true,
            _ => false,
        }
    }
}

/// A failed storage operation.
#[derive(Debug)]
pub enum StorageError {
    /// A table refused an operation.
    InnerError(DbError),
    /// The block is not the one that the marker expects.
    MarkerMismatch { expected: BlockNumber, found: BlockNumber },
    /// The class is already stored, or stored with another definition.
    ClassAlreadyExists { class_hash: ClassHash },
    /// The contract is already deployed.
    ContractAlreadyExists { address: ContractAddress },
    /// The contract already has a nonce in the block.
    NonceReWrite { contract_address: ContractAddress, nonce: Nonce, block_number: BlockNumber },
    /// The tables contradict each other.
    DBInconsistency { msg: String },
}

/// The result of a storage operation.
pub type StorageResult<T> = Result<T, StorageError>;

/// Markers: for each kind, the first block that is not there yet.
pub type MarkersTable = TableHandle<MarkerKind, BlockNumber>;

/// The definitions of the Cairo 1 classes.
pub type DeclaredClassesTable = TableHandle<ClassHash, ContractClass>;

/// The blocks that declared the Cairo 1 classes.
pub type DeclaredClassesBlockTable = TableHandle<ClassHash, BlockNumber>;

/// The definitions of the Cairo 0 classes and the blocks that declared them.
pub type DeprecatedDeclaredClassesTable = TableHandle<ClassHash, IndexedDeprecatedContractClass>;

/// The compiled Cairo 1 classes.
pub type CompiledClassesTable = TableHandle<ClassHash, CasmContractClass>;

/// The class of a contract from a block on: of its deployment, or of a replacement of its class.
pub type DeployedContractsTable = TableHandle<(ContractAddress, BlockNumber), ClassHash>;

/// The value of a storage key of a contract from a block on.
pub type ContractStorageTable = TableHandle<(ContractAddress, StorageKey, BlockNumber), StarkFelt>;

/// The nonce of a contract from a block on.
pub type NoncesTable = TableHandle<(ContractAddress, BlockNumber), Nonce>;

/// The state diffs of the blocks.
pub type StateDiffsTable = TableHandle<BlockNumber, ThinStateDiff>;

/// What a transaction may do.
pub trait TransactionKind: Sized {

}

/// Only read.
pub struct RO;

/// Read and write.
pub struct RW;

impl TransactionKind for RO {

}

impl TransactionKind for RW {

}

/// The tables of the state.
pub struct Tables {
    pub markers: MarkersTable,
    pub declared_classes: DeclaredClassesTable,
    pub declared_classes_block: DeclaredClassesBlockTable,
    pub deprecated_declared_classes: DeprecatedDeclaredClassesTable,
    pub casms: CompiledClassesTable,
    pub deployed_contracts: DeployedContractsTable,
    pub contract_storage: ContractStorageTable,
    pub nonces: NoncesTable,
    pub state_diffs: StateDiffsTable,
}

/// The tables of the state, each as a map.
#[verifier::ext_equal]
pub ghost struct StateView {
    pub markers: Map<MarkerKind, BlockNumber>,
    pub declared_classes: Map<ClassHash, ContractClass>,
    pub declared_classes_block: Map<ClassHash, BlockNumber>,
    pub deprecated_declared_classes: Map<ClassHash, IndexedDeprecatedContractClass>,
    pub casms: Map<ClassHash, CasmContractClass>,
    pub deployed_contracts: Map<(ContractAddress, BlockNumber), ClassHash>,
    pub contract_storage: Map<(ContractAddress, StorageKey, BlockNumber), StarkFelt>,
    pub nonces: Map<(ContractAddress, BlockNumber), Nonce>,
    pub state_diffs: Map<BlockNumber, ThinStateDiffView>,
}

impl View for Tables {
    type V = StateView;

    open spec fn view(&self) -> StateView {
        StateView {
            markers: self.markers@,
            declared_classes: self.declared_classes@,
            declared_classes_block: self.declared_classes_block@,
            deprecated_declared_classes: self.deprecated_declared_classes@,
            casms: self.casms@,
            deployed_contracts: self.deployed_contracts@,
            contract_storage: self.contract_storage@,
            nonces: self.nonces@,
            state_diffs: self.state_diffs@.map_values(|diff: ThinStateDiff| diff@),
        }
    }
}

impl StateView {
    /// The state in which no table has a row.
    pub open spec fn empty() -> StateView {
        StateView {
            markers: Map::empty(),
            declared_classes: Map::empty(),
            declared_classes_block: Map::empty(),
            deprecated_declared_classes: Map::empty(),
            casms: Map::empty(),
            deployed_contracts: Map::empty(),
            contract_storage: Map::empty(),
            nonces: Map::empty(),
            state_diffs: Map::empty(),
        }
    }
}

impl Tables {
    /// Tables without rows.
    pub fn new() -> (r: Tables)
        ensures
            r@ == StateView::empty(),
    {
        let r = Tables {
            markers: TableHandle::new(),
            declared_classes: TableHandle::new(),
            declared_classes_block: TableHandle::new(),
            deprecated_declared_classes: TableHandle::new(),
            casms: TableHandle::new(),
            deployed_contracts: TableHandle::new(),
            contract_storage: TableHandle::new(),
            nonces: TableHandle::new(),
            state_diffs: TableHandle::new(),
        };
        assert(r@ =~= StateView::empty());
        r
    }
}

/// A storage transaction: the tables as it sees them.
pub struct StorageTxn<Mode: TransactionKind> {
    mode: PhantomData<Mode>,
    tables: Tables,
}

impl<Mode: TransactionKind> View for StorageTxn<Mode> {
    type V = StateView;

    closed spec fn view(&self) -> StateView {
        self.tables@
    }
}

impl<Mode: TransactionKind> StorageTxn<Mode> {
    /// A transaction on the tables.
    pub fn begin(tables: Tables) -> (r: Self)
        ensures
            r@ == tables@,
    {
        StorageTxn { mode: PhantomData, tables }
    }

    /// The tables as the transaction sees them.
    pub fn tables(&self) -> (r: &Tables)
        ensures
            r@ == self@,
    {
        &self.tables
    }

    /// The tables at the end of the transaction.
    pub fn into_tables(self) -> (r: Tables)
        ensures
            r@ == self@,
    {
        self.tables
    }
}

/// Tables are read one by one, each as its own map, and the state diffs by what they hold.
pub proof fn law_tables_as_maps(tables: Tables)
    ensures
        tables@.markers == tables.markers@,
        tables@.declared_classes == tables.declared_classes@,
        tables@.declared_classes_block == tables.declared_classes_block@,
        tables@.deprecated_declared_classes == tables.deprecated_declared_classes@,
        tables@.casms == tables.casms@,
        tables@.deployed_contracts == tables.deployed_contracts@,
        tables@.contract_storage == tables.contract_storage@,
        tables@.nonces == tables.nonces@,
        forall|b: BlockNumber| #[trigger]
            tables@.state_diffs.contains_key(b) <==> tables.state_diffs@.contains_key(b),
        forall|b: BlockNumber|
            tables.state_diffs@.contains_key(b) ==> #[trigger] tables@.state_diffs[b]
                == tables.state_diffs@[b]@,
{
}

/// The marker of the state comes before that of the compiled classes.
pub proof fn law_marker_order(a: MarkerKind, b: MarkerKind)
    ensures
        a.precedes(b) <==> a == MarkerKind::State && b == MarkerKind::CompiledClass,
{
}

/// In the empty state no table has a row.
pub proof fn law_empty_state_has_no_rows(
    kind: MarkerKind,
    k: StarkFelt,
    l: StarkFelt,
    b: BlockNumber,
)
    ensures
        !StateView::empty().markers.contains_key(kind),
        !StateView::empty().declared_classes.contains_key(k),
        !StateView::empty().declared_classes_block.contains_key(k),
        !StateView::empty().deprecated_declared_classes.contains_key(k),
        !StateView::empty().casms.contains_key(k),
        !StateView::empty().deployed_contracts.contains_key((k, b)),
        !StateView::empty().contract_storage.contains_key((k, l, b)),
        !StateView::empty().nonces.contains_key((k, b)),
        !StateView::empty().state_diffs.contains_key(b),
{
}

} // verus!
