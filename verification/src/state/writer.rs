//! Adding and taking back the state diffs of blocks.
use vstd::prelude::*;

use indexmap::IndexMap;
use starknet_api::deprecated_contract_class::ContractClass as DeprecatedContractClass;

use crate::block::BlockNumber;
use crate::felt::ClassHash;
use crate::index_map::{
    deprecated_map_extend, deprecated_map_len, deprecated_map_sort_unstable_keys,
};
#[allow(unused_imports)]
use crate::index_map::{deprecated_entries, distinct_keys};
use crate::state_diff::{StateDiff, ThinStateDiff};
use crate::storage::{MarkerKind, StorageError, StorageResult, StorageTxn, RW};

use super::delete::{
    delete_compiled_classes, delete_declared_classes, delete_deployed_contracts,
    delete_deprecated_declared_classes, delete_nonces, delete_replaced_classes,
    delete_storage_diffs,
};
#[allow(unused_imports)]
use super::lemmas::lemma_by_key;
#[allow(unused_imports)]
use super::model::{deprecated_classes, with_value};
use super::write::{
    update_marker, write_declared_classes, write_deployed_contracts,
    write_deprecated_declared_classes, write_nonces, write_replaced_classes, write_storage_diffs,
};
use super::{RevertedStateDiff, StateStorageReader, StateStorageWriter};

verus! {

/// The Cairo 0 definitions that a block brings.
fn merge_deprecated_classes(
    deployed_contract_class_definitions: IndexMap<ClassHash, DeprecatedContractClass>,
    deprecated_declared_classes: IndexMap<ClassHash, DeprecatedContractClass>,
) -> (r: IndexMap<ClassHash, DeprecatedContractClass>)
    ensures
        distinct_keys(deprecated_entries(deployed_contract_class_definitions)),
        deprecated_entries(r) == deprecated_classes(
            deprecated_entries(deployed_contract_class_definitions),
            deprecated_entries(deprecated_declared_classes),
        ),
{
    if deprecated_map_len(&deployed_contract_class_definitions) == 0 {
        return deprecated_declared_classes;
    }
    if deprecated_map_len(&deprecated_declared_classes) == 0 {
        return deployed_contract_class_definitions;
    }
    let mut merged = deployed_contract_class_definitions;
    deprecated_map_extend(&mut merged, deprecated_declared_classes);
    let ghost unsorted = deprecated_entries(merged);
    deprecated_map_sort_unstable_keys(&mut merged);
    proof {
        lemma_by_key(unsorted, deprecated_entries(merged));
    }
    merged
}

impl StateStorageWriter for StorageTxn<RW> {
    fn append_state_diff(
        self,
        block_number: BlockNumber,
        state_diff: StateDiff,
        deployed_contract_class_definitions: IndexMap<ClassHash, DeprecatedContractClass>,
    ) -> (r: StorageResult<Self>) {
        let ghost diff = state_diff@;
        let ghost definitions = deprecated_entries(deployed_contract_class_definitions);
        let mut tables = self.into_tables();
        match update_marker(&mut tables.markers, block_number) {
            Ok(()) => {},
            Err(e) => {
                return Err(e);
            },
        }
        // Write the state except declared classes.
        match write_deployed_contracts(
            &state_diff.deployed_contracts,
            block_number,
            &mut tables.deployed_contracts,
            &mut tables.nonces,
        ) {
            Ok(()) => {},
            Err(e) => {
                return Err(e);
            },
        }
        write_storage_diffs(
            &state_diff.storage_diffs,
            block_number,
            &mut tables.contract_storage,
        );
        write_nonces(&state_diff.nonces, block_number, &mut tables.nonces);
        match write_replaced_classes(
            &state_diff.replaced_classes,
            block_number,
            &mut tables.deployed_contracts,
        ) {
            Ok(()) => {},
            Err(e) => {
                return Err(e);
            },
        }
        // Write the state diff.
        let (thin_state_diff, declared_classes, deprecated_declared_classes) =
            ThinStateDiff::from_state_diff(state_diff);
        match tables.state_diffs.insert(block_number, thin_state_diff) {
            Ok(()) => {},
            Err(e) => {
                return Err(StorageError::InnerError(e));
            },
        }
        // Write declared classes.
        match write_declared_classes(
            &declared_classes,
            &mut tables.declared_classes,
            block_number,
            &mut tables.declared_classes_block,
        ) {
            Ok(()) => {},
            Err(e) => {
                return Err(e);
            },
        }
        // Write deprecated declared classes.
        let merged = merge_deprecated_classes(
            deployed_contract_class_definitions,
            deprecated_declared_classes,
        );
        match write_deprecated_declared_classes(
            merged,
            block_number,
            &mut tables.deprecated_declared_classes,
        ) {
            Ok(()) => {},
            Err(e) => {
                return Err(e);
            },
        }
        proof {
            assert(with_value(diff.class_definitions(), block_number) =~= with_value(
                diff.declared_classes,
                block_number,
            ));
            assert(tables@ =~= self@.append(block_number, diff, definitions));
        }
        Ok(StorageTxn::begin(tables))
    }

    fn revert_state_diff(self, block_number: BlockNumber) -> (r: StorageResult<
        (Self, Option<RevertedStateDiff>),
    >) {
        let current_state_marker: BlockNumber = match self.get_state_marker() {
            Ok(marker) => marker,
            Err(e) => {
                return Err(e);
            },
        };
        // Reverts only the last state diff.
        if current_state_marker != block_number.next() {
            return Ok((self, None));
        }
        let thin_state_diff: ThinStateDiff = match self.get_state_diff(block_number) {
            Ok(diff) => diff.unwrap(),
            Err(e) => {
                return Err(e);
            },
        };
        let mut tables = self.into_tables();
        tables.markers.upsert(MarkerKind::State, block_number);
        let compiled_classes_marker: BlockNumber = match tables.markers.get(
            &MarkerKind::CompiledClass,
        ) {
            Some(marker) => *marker,
            None => BlockNumber::default(),
        };
        if compiled_classes_marker == block_number.next() {
            tables.markers.upsert(MarkerKind::CompiledClass, block_number);
        }
        let deleted_classes = delete_declared_classes(
            &thin_state_diff,
            &mut tables.declared_classes,
            &mut tables.declared_classes_block,
        );
        let deleted_deprecated_classes = delete_deprecated_declared_classes(
            block_number,
            &thin_state_diff,
            &mut tables.deprecated_declared_classes,
        );
        let deleted_compiled_classes = delete_compiled_classes(
            &thin_state_diff.declared_classes,
            &mut tables.casms,
        );
        delete_deployed_contracts(
            block_number,
            &thin_state_diff,
            &mut tables.deployed_contracts,
            &mut tables.nonces,
        );
        delete_storage_diffs(block_number, &thin_state_diff, &mut tables.contract_storage);
        delete_nonces(block_number, &thin_state_diff, &mut tables.nonces);
        tables.state_diffs.delete(&block_number);
        delete_replaced_classes(block_number, &thin_state_diff, &mut tables.deployed_contracts);
        proof {
            assert(tables@ =~= self@.revert(block_number));
        }
        Ok(
            (
                StorageTxn::begin(tables),
                Some(
                    (
                        thin_state_diff,
                        deleted_classes,
                        deleted_deprecated_classes,
                        deleted_compiled_classes,
                    ),
                ),
            ),
        )
    }
}

} // verus!
