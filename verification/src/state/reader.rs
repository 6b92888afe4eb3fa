//! Reading the state.
use std::marker::PhantomData;

use vstd::prelude::*;

use starknet_api::deprecated_contract_class::ContractClass as DeprecatedContractClass;
use starknet_api::state::ContractClass;

use crate::block::{BlockNumber, StateNumber};
#[allow(unused_imports)]
use crate::db::{lemma_row_in_map, rows_contain, rows_map, rows_sorted, TableKey};
use crate::felt::{felt_eq, ClassHash, ContractAddress, Nonce, StarkFelt, StorageKey, ZERO};
use crate::storage::{
    ContractStorageTable, DeclaredClassesBlockTable, DeclaredClassesTable,
    DeployedContractsTable, DeprecatedDeclaredClassesTable, NoncesTable, StorageError,
    StorageResult, StorageTxn, TransactionKind,
};

#[allow(unused_imports)]
use super::model::{history_of, latest, storage_history_of, storage_value_at, ReaderView};

verus! {

/// A single coherent state at a single point in time.
pub struct StateReader<'env, Mode: TransactionKind> {
    mode: PhantomData<Mode>,
    declared_classes_table: &'env DeclaredClassesTable,
    declared_classes_block_table: &'env DeclaredClassesBlockTable,
    deprecated_declared_classes_table: &'env DeprecatedDeclaredClassesTable,
    deployed_contracts_table: &'env DeployedContractsTable,
    nonces_table: &'env NoncesTable,
    storage_table: &'env ContractStorageTable,
}

impl<'env, Mode: TransactionKind> View for StateReader<'env, Mode> {
    type V = ReaderView;

    closed spec fn view(&self) -> ReaderView {
        ReaderView {
            declared_classes: self.declared_classes_table@,
            declared_classes_block: self.declared_classes_block_table@,
            deprecated_declared_classes: self.deprecated_declared_classes_table@,
            deployed_contracts: self.deployed_contracts_table@,
            contract_storage: self.storage_table@,
            nonces: self.nonces_table@,
        }
    }
}

/// The message of the error for a class that has a block but no definition.
pub const MISSING_CLASS: &'static str =
    "block number found in declared_classes_block_table but contract class is not found in declared_classes_table.";

/// The latest value before a block is that of the last block with a value.
pub proof fn lemma_latest_is<V>(history: Map<BlockNumber, V>, c: BlockNumber, bound: nat)
    requires
        history.contains_key(c),
        c.0 < bound <= u64::MAX,
        forall|d: BlockNumber| c.0 < d.0 < bound ==> !#[trigger] history.contains_key(d),
    ensures
        latest(history, bound) == Some(history[c]),
    decreases bound,
{
    let d = BlockNumber((bound - 1) as u64);
    if c.0 < bound - 1 {
        assert(!history.contains_key(d));
        lemma_latest_is(history, c, (bound - 1) as nat);
    } else {
        assert(d == c);
    }
}

/// Without a block that has a value there is no latest value.
pub proof fn lemma_latest_none<V>(history: Map<BlockNumber, V>, bound: nat)
    requires
        bound <= u64::MAX,
        forall|d: BlockNumber| d.0 < bound ==> !#[trigger] history.contains_key(d),
    ensures
        latest(history, bound) is None,
    decreases bound,
{
    if bound > 0 {
        let d = BlockNumber((bound - 1) as u64);
        assert(!history.contains_key(d));
        lemma_latest_none(history, (bound - 1) as nat);
    }
}

/// The row before the first one that is not before `(k, b)` tells the latest value of `k` before
/// block `b`.
proof fn lemma_row_before<V>(
    rows: Seq<((StarkFelt, BlockNumber), V)>,
    p: int,
    k: StarkFelt,
    b: BlockNumber,
)
    requires
        rows_sorted(rows),
        0 <= p <= rows.len(),
        forall|i: int| 0 <= i < p ==> (#[trigger] rows[i]).0.precedes((k, b)),
        forall|i: int| p <= i < rows.len() ==> !(#[trigger] rows[i]).0.precedes((k, b)),
    ensures
        latest(history_of(rows_map(rows), k), b.0 as nat) == (if p > 0 && rows[p - 1].0.0 == k {
            Some(rows[p - 1].1)
        } else {
            None
        }),
{
    let history = history_of(rows_map(rows), k);
    if p > 0 && rows[p - 1].0.0 == k {
        let c = rows[p - 1].0.1;
        lemma_row_in_map(rows, p - 1);
        assert forall|d: BlockNumber| c.0 < d.0 < b.0 implies
            !#[trigger] history.contains_key(d) by {
            if history.contains_key(d) {
                assert(rows_contain(rows, (k, d)));
                let i = choose|i: int| 0 <= i < rows.len() && (#[trigger] rows[i]).0 == (k, d);
                assert(rows[i].0.precedes((k, b)));
                assert(i < p - 1);
                assert(rows[i].0.precedes(rows[p - 1].0));
            }
        }
        lemma_latest_is(history, c, b.0 as nat);
    } else {
        assert forall|d: BlockNumber| d.0 < b.0 implies !#[trigger] history.contains_key(d) by {
            if history.contains_key(d) {
                assert(rows_contain(rows, (k, d)));
                let i = choose|i: int| 0 <= i < rows.len() && (#[trigger] rows[i]).0 == (k, d);
                assert(rows[i].0.precedes((k, b)));
                assert(i < p - 1);
                assert(rows[i].0.precedes(rows[p - 1].0));
            }
        }
        lemma_latest_none(history, b.0 as nat);
    }
}

/// The row before the first one that is not before `(a, k, b)` tells the latest value of the
/// storage key `k` of contract `a` before block `b`.
proof fn lemma_storage_row_before(
    rows: Seq<((ContractAddress, StorageKey, BlockNumber), StarkFelt)>,
    p: int,
    a: ContractAddress,
    k: StorageKey,
    b: BlockNumber,
)
    requires
        rows_sorted(rows),
        0 <= p <= rows.len(),
        forall|i: int| 0 <= i < p ==> (#[trigger] rows[i]).0.precedes((a, k, b)),
        forall|i: int| p <= i < rows.len() ==> !(#[trigger] rows[i]).0.precedes((a, k, b)),
    ensures
        latest(storage_history_of(rows_map(rows), a, k), b.0 as nat) == (if p > 0 && rows[p - 1].0.0
            == a && rows[p - 1].0.1 == k {
            Some(rows[p - 1].1)
        } else {
            None
        }),
{
    let history = storage_history_of(rows_map(rows), a, k);
    if p > 0 && rows[p - 1].0.0 == a && rows[p - 1].0.1 == k {
        let c = rows[p - 1].0.2;
        lemma_row_in_map(rows, p - 1);
        assert forall|d: BlockNumber| c.0 < d.0 < b.0 implies
            !#[trigger] history.contains_key(d) by {
            if history.contains_key(d) {
                assert(rows_contain(rows, (a, k, d)));
                let i = choose|i: int| 0 <= i < rows.len() && (#[trigger] rows[i]).0 == (a, k, d);
                assert(rows[i].0.precedes((a, k, b)));
                assert(i < p - 1);
                assert(rows[i].0.precedes(rows[p - 1].0));
            }
        }
        lemma_latest_is(history, c, b.0 as nat);
    } else {
        assert forall|d: BlockNumber| d.0 < b.0 implies !#[trigger] history.contains_key(d) by {
            if history.contains_key(d) {
                assert(rows_contain(rows, (a, k, d)));
                let i = choose|i: int| 0 <= i < rows.len() && (#[trigger] rows[i]).0 == (a, k, d);
                assert(rows[i].0.precedes((a, k, b)));
                assert(i < p - 1);
                assert(rows[i].0.precedes(rows[p - 1].0));
            }
        }
        lemma_latest_none(history, b.0 as nat);
    }
}

/// The value of a storage key of a contract at a state: zero where it has none.
pub(crate) fn latest_value(
    storage_table: &ContractStorageTable,
    state_number: StateNumber,
    address: &ContractAddress,
    key: &StorageKey,
) -> (r: StarkFelt)
    ensures
        r == storage_value_at(storage_table@, state_number, *address, *key),
{
    // Updates are indexed by the block at which they occurred: the relevant one is the last one
    // strictly before `first_irrelevant_block`.
    let first_irrelevant_block: BlockNumber = state_number.block_after();
    let db_key = (*address, *key, first_irrelevant_block);
    let mut cursor = storage_table.cursor();
    let _ = cursor.lower_bound(&db_key);
    proof {
        lemma_storage_row_before(
            cursor.rows(),
            cursor.position() as int,
            *address,
            *key,
            first_irrelevant_block,
        );
    }
    match cursor.prev() {
        None => ZERO,
        Some((got_key, value)) => {
            if !felt_eq(&got_key.0, address) || !felt_eq(&got_key.1, key) {
                // The previous row belongs to another key.
                return ZERO;
            }
            *value
        },
    }
}

impl<'env, Mode: TransactionKind> StateReader<'env, Mode> {
    /// A reader of the tables of a storage transaction.
    pub(crate) fn new(txn: &'env StorageTxn<Mode>) -> (r: StorageResult<Self>)
        ensures
            r matches Ok(reader) && reader@ == txn@.readable(),
    {
        let tables = txn.tables();
        Ok(
            StateReader {
                mode: PhantomData,
                declared_classes_table: &tables.declared_classes,
                declared_classes_block_table: &tables.declared_classes_block,
                deprecated_declared_classes_table: &tables.deprecated_declared_classes,
                deployed_contracts_table: &tables.deployed_contracts,
                nonces_table: &tables.nonces,
                storage_table: &tables.contract_storage,
            },
        )
    }

    /// The class hash of a contract at a state, or `None` if the contract is not deployed there.
    pub fn get_class_hash_at(&self, state_number: StateNumber, address: &ContractAddress) -> (r:
        StorageResult<Option<ClassHash>>)
        ensures
            r == Ok::<Option<ClassHash>, StorageError>(self@.class_hash_at(state_number, *address)),
    {
        let first_irrelevant_block: BlockNumber = state_number.block_after();
        let db_key = (*address, first_irrelevant_block);
        let mut cursor = self.deployed_contracts_table.cursor();
        let _ = cursor.lower_bound(&db_key);
        proof {
            lemma_row_before(
                cursor.rows(),
                cursor.position() as int,
                *address,
                first_irrelevant_block,
            );
        }
        match cursor.prev() {
            None => Ok(None),
            Some((got_key, class_hash)) => {
                if !felt_eq(&got_key.0, address) {
                    Ok(None)
                } else {
                    Ok(Some(*class_hash))
                }
            },
        }
    }

    /// The nonce of a contract at a state, or `None` if it has none there.
    pub fn get_nonce_at(&self, state_number: StateNumber, address: &ContractAddress) -> (r:
        StorageResult<Option<Nonce>>)
        ensures
            r == Ok::<Option<Nonce>, StorageError>(self@.nonce_at(state_number, *address)),
    {
        // Updates are indexed by the block at which they occurred: the relevant one is the last
        // one strictly before `first_irrelevant_block`.
        let first_irrelevant_block: BlockNumber = state_number.block_after();
        let db_key = (*address, first_irrelevant_block);
        let mut cursor = self.nonces_table.cursor();
        let _ = cursor.lower_bound(&db_key);
        proof {
            lemma_row_before(
                cursor.rows(),
                cursor.position() as int,
                *address,
                first_irrelevant_block,
            );
        }
        match cursor.prev() {
            None => Ok(None),
            Some((got_key, value)) => {
                if !felt_eq(&got_key.0, address) {
                    // The previous row belongs to another contract.
                    return Ok(None);
                }
                Ok(Some(*value))
            },
        }
    }

    /// The value of a storage key of a contract at a state: zero where it has none.
    pub fn get_storage_at(
        &self,
        state_number: StateNumber,
        address: &ContractAddress,
        key: &StorageKey,
    ) -> (r: StorageResult<StarkFelt>)
        ensures
            r == Ok::<StarkFelt, StorageError>(self@.storage_at(state_number, *address, *key)),
    {
        Ok(latest_value(self.storage_table, state_number, address, key))
    }

    /// The definition of a Cairo 1 class at a state, or `None` if it is not declared there. It is
    /// an inconsistency if the class has a block but no definition.
    pub fn get_class_definition_at(&self, state_number: StateNumber, class_hash: &ClassHash) -> (r:
        StorageResult<Option<ContractClass>>)
        ensures
            match r {
                Ok(None) => !self@.class_declared_at(state_number, *class_hash),
                Ok(Some(class)) => {
                    &&& self@.class_declared_at(state_number, *class_hash)
                    &&& self@.declared_classes.get(*class_hash) == Some(class)
                },
                Err(e) => {
                    &&& self@.class_declared_at(state_number, *class_hash)
                    &&& self@.declared_classes.get(*class_hash) is None
                    &&& e matches StorageError::DBInconsistency { msg }
                    &&& msg@ == MISSING_CLASS@
                },
            },
    {
        let block_number: BlockNumber = match self.declared_classes_block_table.get(class_hash) {
            Some(block_number) => *block_number,
            None => {
                return Ok(None);
            },
        };
        if state_number.is_before(block_number) {
            return Ok(None);
        }
        match self.declared_classes_table.get(class_hash) {
            Some(contract_class) => Ok(Some(contract_class.clone())),
            None => Err(StorageError::DBInconsistency { msg: MISSING_CLASS.to_string() }),
        }
    }

    /// The block that declared a Cairo 1 class, or `None` if it is not declared.
    pub fn get_class_definition_block_number(&self, class_hash: &ClassHash) -> (r: StorageResult<
        Option<BlockNumber>,
    >)
        ensures
            r == Ok::<Option<BlockNumber>, StorageError>(
                self@.declared_classes_block.get(*class_hash),
            ),
    {
        match self.declared_classes_block_table.get(class_hash) {
            Some(block_number) => Ok(Some(*block_number)),
            None => Ok(None),
        }
    }

    /// The definition of a Cairo 0 class at a state, or `None` if it is not declared there.
    pub fn get_deprecated_class_definition_at(
        &self,
        state_number: StateNumber,
        class_hash: &ClassHash,
    ) -> (r: StorageResult<Option<DeprecatedContractClass>>)
        ensures
            r == Ok::<Option<DeprecatedContractClass>, StorageError>(
                self@.deprecated_class_at(state_number, *class_hash),
            ),
    {
        match self.deprecated_declared_classes_table.get(class_hash) {
            Some(value) => {
                if state_number.is_before(value.block_number) {
                    return Ok(None);
                }
                Ok(Some(value.contract_class.clone()))
            },
            None => Ok(None),
        }
    }
}

} // verus!
