//! Taking back the state diff of a block.
use vstd::prelude::*;

use cairo_lang_starknet::casm_contract_class::CasmContractClass;
use indexmap::IndexMap;
use starknet_api::deprecated_contract_class::ContractClass as DeprecatedContractClass;
use starknet_api::state::ContractClass;

use crate::block::BlockNumber;
use crate::felt::{ClassHash, CompiledClassHash};
use crate::index_map::{
    casm_map_new, felt_map_len, map_get_index, map_insert, map_new, storage_map_len,
};
#[allow(unused_imports)]
use crate::index_map::{
    casm_entries, class_entries, deprecated_entries, distinct_keys, felt_entries, storage_entries,
};
use crate::state_diff::ThinStateDiff;
#[allow(unused_imports)]
use crate::state_diff::lemma_fresh_key;
use crate::storage::{
    CompiledClassesTable, ContractStorageTable, DeclaredClassesBlockTable, DeclaredClassesTable,
    DeployedContractsTable, DeprecatedDeclaredClassesTable, NoncesTable,
};

#[allow(unused_imports)]
use super::lemmas::{
    contract_rows_at, lemma_contract_rows_at_step, lemma_leading, lemma_push_entry,
    lemma_remove_row_step, lemma_remove_step, lemma_storage_rows_at_step,
};
#[allow(unused_imports)]
use super::model::{
    candidate_classes, classes_of_block, entries_map, leading, rows_at, storage_rows_at,
    with_values_of,
};

verus! {

/// Removes the Cairo 1 classes that a state diff declares, and returns their definitions.
pub(crate) fn delete_declared_classes(
    thin_state_diff: &ThinStateDiff,
    declared_classes_table: &mut DeclaredClassesTable,
    declared_classes_block_table: &mut DeclaredClassesBlockTable,
) -> (r: IndexMap<ClassHash, ContractClass>)
    requires
        forall|i: int|
            0 <= i < thin_state_diff@.declared_classes.len() ==> old(
                declared_classes_table,
            )@.contains_key((#[trigger] thin_state_diff@.declared_classes[i]).0),
    ensures
        class_entries(r) == with_values_of(
            thin_state_diff@.declared_classes,
            old(declared_classes_table)@,
        ),
        final(declared_classes_table)@ == old(declared_classes_table)@.remove_keys(
            entries_map(thin_state_diff@.declared_classes).dom(),
        ),
        final(declared_classes_block_table)@ == old(declared_classes_block_table)@.remove_keys(
            entries_map(thin_state_diff@.declared_classes).dom(),
        ),
{
    let ghost entries = thin_state_diff@.declared_classes;
    let ghost deleted = with_values_of(entries, old(declared_classes_table)@);
    let n: usize = felt_map_len(&thin_state_diff.declared_classes);
    let mut deleted_data: IndexMap<ClassHash, ContractClass> = map_new();
    let mut i: usize = 0;
    proof {
        assert(declared_classes_table@ =~= old(declared_classes_table)@.remove_keys(
            entries_map(entries.take(0)).dom(),
        ));
        assert(declared_classes_block_table@ =~= old(declared_classes_block_table)@.remove_keys(
            entries_map(entries.take(0)).dom(),
        ));
    }
    while i < n
        invariant
            i <= n,
            n == entries.len(),
            entries == felt_entries(thin_state_diff.declared_classes),
            distinct_keys(entries),
            deleted == with_values_of(entries, old(declared_classes_table)@),
            forall|k: int|
                0 <= k < entries.len() ==> old(declared_classes_table)@.contains_key(
                    (#[trigger] entries[k]).0,
                ),
            class_entries(deleted_data) == deleted.take(i as int),
            declared_classes_table@ == old(declared_classes_table)@.remove_keys(
                entries_map(entries.take(i as int)).dom(),
            ),
            declared_classes_block_table@ == old(declared_classes_block_table)@.remove_keys(
                entries_map(entries.take(i as int)).dom(),
            ),
        decreases n - i,
    {
        let (class_hash, _) = map_get_index(&thin_state_diff.declared_classes, i).unwrap();
        proof {
            lemma_remove_step(entries, i as int, old(declared_classes_table)@);
            lemma_remove_step(entries, i as int, old(declared_classes_block_table)@);
            lemma_fresh_key(deleted, i as int);
        }
        let contract_class = declared_classes_table.get(class_hash).unwrap().clone();
        let ghost before = class_entries(deleted_data);
        let _ = map_insert(&mut deleted_data, *class_hash, contract_class);
        declared_classes_table.delete(class_hash);
        declared_classes_block_table.delete(class_hash);
        proof {
            assert(before.push(deleted[i as int]) =~= deleted.take(i + 1));
        }
        i = i + 1;
    }
    proof {
        assert(entries.take(n as int) =~= entries);
        assert(deleted.take(n as int) =~= deleted);
    }
    deleted_data
}

/// The hashes of the Cairo 0 classes that the block of a state diff can have brought.
fn candidates(thin_state_diff: &ThinStateDiff) -> (r: Vec<ClassHash>)
    ensures
        r@ == candidate_classes(thin_state_diff@),
{
    let ghost entries = thin_state_diff@.deployed_contracts;
    let ghost all = candidate_classes(thin_state_diff@);
    let m: usize = thin_state_diff.deprecated_declared_classes.len();
    let n: usize = felt_map_len(&thin_state_diff.deployed_contracts);
    let mut class_hashes: Vec<ClassHash> = Vec::new();
    let mut i: usize = 0;
    while i < m
        invariant
            i <= m,
            m == thin_state_diff.deprecated_declared_classes.len(),
            all == candidate_classes(thin_state_diff@),
            class_hashes@ == all.take(i as int),
        decreases m - i,
    {
        class_hashes.push(thin_state_diff.deprecated_declared_classes[i]);
        proof {
            assert(class_hashes@ =~= all.take(i + 1));
        }
        i = i + 1;
    }
    let mut j: usize = 0;
    while j < n
        invariant
            j <= n,
            n == entries.len(),
            entries == felt_entries(thin_state_diff.deployed_contracts),
            m == thin_state_diff.deprecated_declared_classes.len(),
            all == candidate_classes(thin_state_diff@),
            class_hashes@ == all.take(m + j),
        decreases n - j,
    {
        let (_, class_hash) = map_get_index(&thin_state_diff.deployed_contracts, j).unwrap();
        class_hashes.push(*class_hash);
        proof {
            assert(class_hashes@ =~= all.take(m + j + 1));
        }
        j = j + 1;
    }
    assert(all.take(m + n) =~= all);
    class_hashes
}

/// Removes the Cairo 0 classes that a block brought, and returns their definitions. A class that
/// was declared in another block stays, and a hash of a Cairo 1 class is passed over.
pub(crate) fn delete_deprecated_declared_classes(
    block_number: BlockNumber,
    thin_state_diff: &ThinStateDiff,
    deprecated_declared_classes_table: &mut DeprecatedDeclaredClassesTable,
) -> (r: IndexMap<ClassHash, DeprecatedContractClass>)
    ensures
        ({
            let removed = classes_of_block(
                old(deprecated_declared_classes_table)@,
                candidate_classes(thin_state_diff@),
                block_number,
            );
            &&& distinct_keys(deprecated_entries(r))
            &&& entries_map(deprecated_entries(r)) == removed
            &&& final(deprecated_declared_classes_table)@ == old(
                deprecated_declared_classes_table,
            )@.remove_keys(removed.dom())
        }),
{
    let ghost table = old(deprecated_declared_classes_table)@;
    let class_hashes: Vec<ClassHash> = candidates(thin_state_diff);
    let n: usize = class_hashes.len();
    let mut deleted_data: IndexMap<ClassHash, DeprecatedContractClass> = map_new();
    let mut i: usize = 0;
    proof {
        let removed = classes_of_block(table, class_hashes@.take(0), block_number);
        assert(removed =~= Map::empty());
        assert(entries_map(deprecated_entries(deleted_data)) =~= removed);
        assert(deprecated_declared_classes_table@ =~= table.remove_keys(removed.dom()));
    }
    while i < n
        invariant
            i <= n,
            n == class_hashes.len(),
            table == old(deprecated_declared_classes_table)@,
            distinct_keys(deprecated_entries(deleted_data)),
            entries_map(deprecated_entries(deleted_data)) == classes_of_block(
                table,
                class_hashes@.take(i as int),
                block_number,
            ),
            deprecated_declared_classes_table@ == table.remove_keys(
                classes_of_block(table, class_hashes@.take(i as int), block_number).dom(),
            ),
        decreases n - i,
    {
        let class_hash: &ClassHash = &class_hashes[i];
        let ghost before = classes_of_block(table, class_hashes@.take(i as int), block_number);
        let ghost after = classes_of_block(table, class_hashes@.take(i + 1), block_number);
        let ghost entries = deprecated_entries(deleted_data);
        proof {
            assert(class_hashes@.take(i + 1) =~= class_hashes@.take(i as int).push(*class_hash));
            assert forall|h: ClassHash|
                class_hashes@.take(i + 1).contains(h) <==> class_hashes@.take(i as int).contains(h)
                    || h == *class_hash by {
                let old_hashes = class_hashes@.take(i as int);
                let new_hashes = class_hashes@.take(i + 1);
                if old_hashes.contains(h) {
                    let k = old_hashes.index_of(h);
                    assert(new_hashes[k] == h);
                }
                assert(new_hashes[i as int] == *class_hash);
                if new_hashes.contains(h) && h != *class_hash {
                    let k = new_hashes.index_of(h);
                    assert(old_hashes[k] == h);
                }
            }
        }
        let mut found: Option<DeprecatedContractClass> = None;
        if let Some(value) = deprecated_declared_classes_table.get(class_hash) {
            // A class of another block stays.
            if value.block_number == block_number {
                found = Some(value.contract_class.clone());
            }
        }
        match found {
            Some(contract_class) => {
                let ghost class = contract_class;
                let _ = map_insert(&mut deleted_data, *class_hash, contract_class);
                deprecated_declared_classes_table.delete(class_hash);
                proof {
                    assert(!before.contains_key(*class_hash));
                    assert(!entries_map(entries).contains_key(*class_hash));
                    lemma_push_entry(entries, *class_hash, class);
                    assert(after =~= before.insert(*class_hash, class));
                    assert(deprecated_declared_classes_table@ =~= table.remove_keys(after.dom()));
                }
            },
            None => {
                proof {
                    assert(after =~= before);
                }
            },
        }
        i = i + 1;
    }
    assert(class_hashes@.take(n as int) =~= class_hashes@);
    deleted_data
}

/// Removes the compiled classes of declared classes, up to the first one that has none, and
/// returns them.
pub(crate) fn delete_compiled_classes(
    declared_classes: &IndexMap<ClassHash, CompiledClassHash>,
    compiled_classes_table: &mut CompiledClassesTable,
) -> (r: IndexMap<ClassHash, CasmContractClass>)
    ensures
        ({
            let declared = felt_entries(*declared_classes);
            let compiled = declared.take(leading(declared, old(compiled_classes_table)@) as int);
            &&& casm_entries(r) == with_values_of(compiled, old(compiled_classes_table)@)
            &&& final(compiled_classes_table)@ == old(compiled_classes_table)@.remove_keys(
                entries_map(compiled).dom(),
            )
        }),
{
    let ghost entries = felt_entries(*declared_classes);
    let ghost table = old(compiled_classes_table)@;
    let ghost deleted = with_values_of(entries, table);
    let n: usize = felt_map_len(declared_classes);
    let mut deleted_data: IndexMap<ClassHash, CasmContractClass> = casm_map_new();
    let mut i: usize = 0;
    proof {
        assert(compiled_classes_table@ =~= table.remove_keys(entries_map(entries.take(0)).dom()));
    }
    while i < n
        invariant
            i <= n,
            n == entries.len(),
            entries == felt_entries(*declared_classes),
            distinct_keys(entries),
            table == old(compiled_classes_table)@,
            deleted == with_values_of(entries, table),
            forall|k: int| 0 <= k < i ==> table.contains_key((#[trigger] entries[k]).0),
            casm_entries(deleted_data) == deleted.take(i as int),
            compiled_classes_table@ == table.remove_keys(
                entries_map(entries.take(i as int)).dom(),
            ),
        ensures
            i < n ==> !table.contains_key(entries[i as int].0),
        decreases n - i,
    {
        let (class_hash, _) = map_get_index(declared_classes, i).unwrap();
        proof {
            lemma_remove_step(entries, i as int, table);
            lemma_fresh_key(deleted, i as int);
        }
        let mut found: Option<CasmContractClass> = None;
        if let Some(compiled_class) = compiled_classes_table.get(class_hash) {
            found = Some(compiled_class.clone());
        }
        match found {
            // No compiled class means that the rest was not downloaded yet.
            None => {
                break;
            },
            Some(compiled_class) => {
                compiled_classes_table.delete(class_hash);
                let ghost before = casm_entries(deleted_data);
                let _ = map_insert(&mut deleted_data, *class_hash, compiled_class);
                proof {
                    assert(before.push(deleted[i as int]) =~= deleted.take(i + 1));
                }
                i = i + 1;
            },
        }
    }
    proof {
        lemma_leading(entries, table);
        assert(leading(entries, table) == i);
        assert(deleted.take(i as int) =~= with_values_of(entries.take(i as int), table));
    }
    deleted_data
}

/// Removes the rows of the contracts that a block deployed.
pub(crate) fn delete_deployed_contracts(
    block_number: BlockNumber,
    thin_state_diff: &ThinStateDiff,
    deployed_contracts_table: &mut DeployedContractsTable,
    nonces_table: &mut NoncesTable,
)
    ensures
        final(deployed_contracts_table)@ == old(deployed_contracts_table)@.remove_keys(
            rows_at(thin_state_diff@.deployed_contracts, block_number).dom(),
        ),
        final(nonces_table)@ == old(nonces_table)@.remove_keys(
            rows_at(thin_state_diff@.deployed_contracts, block_number).dom(),
        ),
{
    let ghost entries = thin_state_diff@.deployed_contracts;
    let n: usize = felt_map_len(&thin_state_diff.deployed_contracts);
    let mut i: usize = 0;
    proof {
        assert(deployed_contracts_table@ =~= old(deployed_contracts_table)@.remove_keys(
            rows_at(entries.take(0), block_number).dom(),
        ));
        assert(nonces_table@ =~= old(nonces_table)@.remove_keys(
            rows_at(entries.take(0), block_number).dom(),
        ));
    }
    while i < n
        invariant
            i <= n,
            n == entries.len(),
            entries == felt_entries(thin_state_diff.deployed_contracts),
            distinct_keys(entries),
            deployed_contracts_table@ == old(deployed_contracts_table)@.remove_keys(
                rows_at(entries.take(i as int), block_number).dom(),
            ),
            nonces_table@ == old(nonces_table)@.remove_keys(
                rows_at(entries.take(i as int), block_number).dom(),
            ),
        decreases n - i,
    {
        let (contract_address, _) = map_get_index(&thin_state_diff.deployed_contracts, i).unwrap();
        deployed_contracts_table.delete(&(*contract_address, block_number));
        nonces_table.delete(&(*contract_address, block_number));
        proof {
            lemma_remove_row_step(entries, i as int, block_number, old(deployed_contracts_table)@);
            lemma_remove_row_step(entries, i as int, block_number, old(nonces_table)@);
        }
        i = i + 1;
    }
    assert(entries.take(n as int) =~= entries);
}

/// Removes the storage values that a block set.
pub(crate) fn delete_storage_diffs(
    block_number: BlockNumber,
    thin_state_diff: &ThinStateDiff,
    storage_table: &mut ContractStorageTable,
)
    ensures
        final(storage_table)@ == old(storage_table)@.remove_keys(
            storage_rows_at(thin_state_diff@.storage_diffs, block_number).dom(),
        ),
{
    let ghost entries = thin_state_diff@.storage_diffs;
    let n: usize = storage_map_len(&thin_state_diff.storage_diffs);
    let mut i: usize = 0;
    proof {
        assert(storage_table@ =~= old(storage_table)@.remove_keys(
            storage_rows_at(entries.take(0), block_number).dom(),
        ));
    }
    while i < n
        invariant
            i <= n,
            n == entries.len(),
            entries == storage_entries(thin_state_diff.storage_diffs),
            distinct_keys(entries),
            storage_table@ == old(storage_table)@.remove_keys(
                storage_rows_at(entries.take(i as int), block_number).dom(),
            ),
        decreases n - i,
    {
        let (address, entries_of) = map_get_index(&thin_state_diff.storage_diffs, i).unwrap();
        let ghost inner = felt_entries(*entries_of);
        let ghost before = storage_table@;
        let m: usize = felt_map_len(entries_of);
        let mut j: usize = 0;
        proof {
            assert(before =~= before.remove_keys(
                contract_rows_at(*address, inner.take(0), block_number).dom(),
            ));
        }
        while j < m
            invariant
                j <= m,
                m == inner.len(),
                inner == felt_entries(*entries_of),
                distinct_keys(inner),
                storage_table@ == before.remove_keys(
                    contract_rows_at(*address, inner.take(j as int), block_number).dom(),
                ),
            decreases m - j,
        {
            let (key, _) = map_get_index(entries_of, j).unwrap();
            storage_table.delete(&(*address, *key, block_number));
            proof {
                lemma_contract_rows_at_step(*address, inner, j as int, block_number);
                assert(storage_table@ =~= before.remove_keys(
                    contract_rows_at(*address, inner.take(j + 1), block_number).dom(),
                ));
            }
            j = j + 1;
        }
        proof {
            assert(inner.take(m as int) =~= inner);
            lemma_storage_rows_at_step(entries, i as int, block_number);
            assert(storage_table@ =~= old(storage_table)@.remove_keys(
                storage_rows_at(entries.take(i + 1), block_number).dom(),
            ));
        }
        i = i + 1;
    }
    assert(entries.take(n as int) =~= entries);
}

/// Removes the nonces that a block set.
pub(crate) fn delete_nonces(
    block_number: BlockNumber,
    thin_state_diff: &ThinStateDiff,
    contracts_table: &mut NoncesTable,
)
    ensures
        final(contracts_table)@ == old(contracts_table)@.remove_keys(
            rows_at(thin_state_diff@.nonces, block_number).dom(),
        ),
{
    let ghost entries = thin_state_diff@.nonces;
    let n: usize = felt_map_len(&thin_state_diff.nonces);
    let mut i: usize = 0;
    proof {
        assert(contracts_table@ =~= old(contracts_table)@.remove_keys(
            rows_at(entries.take(0), block_number).dom(),
        ));
    }
    while i < n
        invariant
            i <= n,
            n == entries.len(),
            entries == felt_entries(thin_state_diff.nonces),
            distinct_keys(entries),
            contracts_table@ == old(contracts_table)@.remove_keys(
                rows_at(entries.take(i as int), block_number).dom(),
            ),
        decreases n - i,
    {
        let (contract_address, _) = map_get_index(&thin_state_diff.nonces, i).unwrap();
        contracts_table.delete(&(*contract_address, block_number));
        proof {
            lemma_remove_row_step(entries, i as int, block_number, old(contracts_table)@);
        }
        i = i + 1;
    }
    assert(entries.take(n as int) =~= entries);
}

/// Removes the class replacements of a block.
pub(crate) fn delete_replaced_classes(
    block_number: BlockNumber,
    thin_state_diff: &ThinStateDiff,
    deployed_contracts_table: &mut DeployedContractsTable,
)
    ensures
        final(deployed_contracts_table)@ == old(deployed_contracts_table)@.remove_keys(
            rows_at(thin_state_diff@.replaced_classes, block_number).dom(),
        ),
{
    let ghost entries = thin_state_diff@.replaced_classes;
    let n: usize = felt_map_len(&thin_state_diff.replaced_classes);
    let mut i: usize = 0;
    proof {
        assert(deployed_contracts_table@ =~= old(deployed_contracts_table)@.remove_keys(
            rows_at(entries.take(0), block_number).dom(),
        ));
    }
    while i < n
        invariant
            i <= n,
            n == entries.len(),
            entries == felt_entries(thin_state_diff.replaced_classes),
            distinct_keys(entries),
            deployed_contracts_table@ == old(deployed_contracts_table)@.remove_keys(
                rows_at(entries.take(i as int), block_number).dom(),
            ),
        decreases n - i,
    {
        let (contract_address, _) = map_get_index(&thin_state_diff.replaced_classes, i).unwrap();
        deployed_contracts_table.delete(&(*contract_address, block_number));
        proof {
            lemma_remove_row_step(entries, i as int, block_number, old(deployed_contracts_table)@);
        }
        i = i + 1;
    }
    assert(entries.take(n as int) =~= entries);
}

} // verus!
