//! Writing the state diff of a block.
use vstd::prelude::*;

use indexmap::IndexMap;
use starknet_api::deprecated_contract_class::ContractClass as DeprecatedContractClass;
use starknet_api::state::ContractClass;

use crate::block::BlockNumber;
use crate::classes::{same_deprecated_class, IndexedDeprecatedContractClass};
use crate::db::DbError;
use crate::felt::{ClassHash, ContractAddress, Nonce, StarkFelt, StorageKey, ZERO};
use crate::index_map::{
    class_map_len, deprecated_map_len, felt_map_len, map_get_index, storage_map_len,
};
#[allow(unused_imports)]
use crate::index_map::{
    class_entries, deprecated_entries, distinct_keys, felt_entries, storage_entries,
};
use crate::storage::{
    ContractStorageTable, DeclaredClassesBlockTable, DeclaredClassesTable, DeployedContractsTable,
    DeprecatedDeclaredClassesTable, MarkerKind, MarkersTable, NoncesTable, StorageError,
    StorageResult,
};

#[allow(unused_imports)]
use super::lemmas::{
    contract_rows_at, lemma_contract_rows_at_step, lemma_first_error_step, lemma_rows_at_step,
    lemma_storage_rows_at_step, lemma_take_step,
};
#[allow(unused_imports)]
use super::model::{
    declare_deprecated_error, declare_error, deploy_error, entries_map, first_error,
    indexed_classes, marker_in, refused_at, replace_error, rows_at, storage_rows_at, with_value,
};

verus! {

/// Moves the state marker on from the block, which has to be the one that it expects.
pub(crate) fn update_marker(markers_table: &mut MarkersTable, block_number: BlockNumber) -> (r:
    StorageResult<()>)
    requires
        marker_in(old(markers_table)@, MarkerKind::State) == block_number ==> block_number.0
            < u64::MAX,
    ensures
        ({
            let marker = marker_in(old(markers_table)@, MarkerKind::State);
            if marker == block_number {
                r is Ok && final(markers_table)@ == old(markers_table)@.insert(
                    MarkerKind::State,
                    BlockNumber((block_number.0 + 1) as u64),
                )
            } else {
                r == Err::<(), StorageError>(
                    StorageError::MarkerMismatch { expected: marker, found: block_number },
                ) && final(markers_table)@ == old(markers_table)@
            }
        }),
{
    // Make sure the marker is consistent.
    let state_marker: BlockNumber = match markers_table.get(&MarkerKind::State) {
        Some(marker) => *marker,
        None => BlockNumber::default(),
    };
    if state_marker != block_number {
        return Err(
            StorageError::MarkerMismatch { expected: state_marker, found: block_number },
        );
    }
    // Advance the marker.
    markers_table.upsert(MarkerKind::State, block_number.next());
    Ok(())
}

/// Deploys contracts in a block: each gets its class and a zero nonce. Stops at the first contract
/// that is refused: no row that was there is overwritten, the contracts before it stay deployed,
/// and it keeps its new class where only its nonce was refused.
pub(crate) fn write_deployed_contracts(
    deployed_contracts: &IndexMap<ContractAddress, ClassHash>,
    block_number: BlockNumber,
    deployed_contracts_table: &mut DeployedContractsTable,
    nonces_table: &mut NoncesTable,
) -> (r: StorageResult<()>)
    ensures
        distinct_keys(felt_entries(*deployed_contracts)),
        ({
            let entries = felt_entries(*deployed_contracts);
            let zeros = with_value(entries, ZERO);
            let f = |e: (ContractAddress, ClassHash)|
                deploy_error(
                    old(deployed_contracts_table)@,
                    old(nonces_table)@,
                    e.0,
                    block_number,
                );
            match r {
                Ok(()) => {
                    &&& first_error(entries, f) is None
                    &&& final(deployed_contracts_table)@ == old(
                        deployed_contracts_table,
                    )@.union_prefer_right(rows_at(entries, block_number))
                    &&& final(nonces_table)@ == old(nonces_table)@.union_prefer_right(
                        rows_at(zeros, block_number),
                    )
                },
                Err(e) => {
                    &&& first_error(entries, f) == Some(e)
                    &&& exists|j: int|
                        {
                            &&& #[trigger] refused_at(entries, f, j)
                            &&& final(deployed_contracts_table)@ == rows_at(
                                entries.take(j + 1),
                                block_number,
                            ).union_prefer_right(old(deployed_contracts_table)@)
                            &&& final(nonces_table)@ == rows_at(
                                zeros.take(j),
                                block_number,
                            ).union_prefer_right(old(nonces_table)@)
                        }
                },
            }
        }),
{
    let ghost entries = felt_entries(*deployed_contracts);
    let ghost zeros = with_value(entries, ZERO);
    let ghost f = |e: (ContractAddress, ClassHash)|
        deploy_error(old(deployed_contracts_table)@, old(nonces_table)@, e.0, block_number);
    let n: usize = felt_map_len(deployed_contracts);
    let mut i: usize = 0;
    proof {
        assert(rows_at(entries.take(0), block_number) =~= Map::empty());
        assert(rows_at(zeros.take(0), block_number) =~= Map::empty());
        assert(deployed_contracts_table@ =~= old(deployed_contracts_table)@.union_prefer_right(
            rows_at(entries.take(0), block_number),
        ));
        assert(nonces_table@ =~= old(nonces_table)@.union_prefer_right(
            rows_at(zeros.take(0), block_number),
        ));
        assert(deployed_contracts_table@ =~= rows_at(
            entries.take(0),
            block_number,
        ).union_prefer_right(old(deployed_contracts_table)@));
        assert(nonces_table@ =~= rows_at(zeros.take(0), block_number).union_prefer_right(
            old(nonces_table)@,
        ));
        assert(entries.take(0).len() == 0);
    }
    while i < n
        invariant
            i <= n,
            n == entries.len(),
            entries == felt_entries(*deployed_contracts),
            zeros == with_value(entries, ZERO),
            distinct_keys(entries),
            distinct_keys(zeros),
            f == (|e: (ContractAddress, ClassHash)|
                deploy_error(
                    old(deployed_contracts_table)@,
                    old(nonces_table)@,
                    e.0,
                    block_number,
                )),
            first_error(entries.take(i as int), f) is None,
            deployed_contracts_table@ == old(deployed_contracts_table)@.union_prefer_right(
                rows_at(entries.take(i as int), block_number),
            ),
            deployed_contracts_table@ == rows_at(
                entries.take(i as int),
                block_number,
            ).union_prefer_right(old(deployed_contracts_table)@),
            nonces_table@ == old(nonces_table)@.union_prefer_right(
                rows_at(zeros.take(i as int), block_number),
            ),
            nonces_table@ == rows_at(zeros.take(i as int), block_number).union_prefer_right(
                old(nonces_table)@,
            ),
        decreases n - i,
    {
        let (address, class_hash) = map_get_index(deployed_contracts, i).unwrap();
        proof {
            lemma_rows_at_step(entries, i as int, block_number);
            lemma_rows_at_step(zeros, i as int, block_number);
            lemma_first_error_step(entries, i as int, f);
        }
        match deployed_contracts_table.insert((*address, block_number), *class_hash) {
            Ok(()) => {},
            Err(DbError::KeyExist) => {
                proof {
                    assert(refused_at(entries, f, i as int));
                    assert(deployed_contracts_table@ =~= rows_at(
                        entries.take(i + 1),
                        block_number,
                    ).union_prefer_right(old(deployed_contracts_table)@));
                }
                return Err(StorageError::ContractAlreadyExists { address: *address });
            },
        }
        assert(deployed_contracts_table@ =~= rows_at(
            entries.take(i + 1),
            block_number,
        ).union_prefer_right(old(deployed_contracts_table)@));
        match nonces_table.insert((*address, block_number), ZERO) {
            Ok(()) => {},
            Err(DbError::KeyExist) => {
                assert(refused_at(entries, f, i as int));
                return Err(
                    StorageError::NonceReWrite {
                        contract_address: *address,
                        nonce: ZERO,
                        block_number,
                    },
                );
            },
        }
        proof {
            assert(deployed_contracts_table@ =~= old(deployed_contracts_table)@.union_prefer_right(
                rows_at(entries.take(i + 1), block_number),
            ));
            assert(nonces_table@ =~= old(nonces_table)@.union_prefer_right(
                rows_at(zeros.take(i + 1), block_number),
            ));
            assert(nonces_table@ =~= rows_at(zeros.take(i + 1), block_number).union_prefer_right(
                old(nonces_table)@,
            ));
        }
        i = i + 1;
    }
    proof {
        assert(entries.take(n as int) =~= entries);
        assert(zeros.take(n as int) =~= zeros);
    }
    Ok(())
}

/// Sets storage keys of contracts in a block.
pub(crate) fn write_storage_diffs(
    storage_diffs: &IndexMap<ContractAddress, IndexMap<StorageKey, StarkFelt>>,
    block_number: BlockNumber,
    storage_table: &mut ContractStorageTable,
)
    ensures
        distinct_keys(storage_entries(*storage_diffs)),
        forall|k: int|
            0 <= k < storage_entries(*storage_diffs).len() ==> distinct_keys(
                (#[trigger] storage_entries(*storage_diffs)[k]).1,
            ),
        final(storage_table)@ == old(storage_table)@.union_prefer_right(
            storage_rows_at(storage_entries(*storage_diffs), block_number),
        ),
{
    let ghost entries = storage_entries(*storage_diffs);
    let n: usize = storage_map_len(storage_diffs);
    let mut i: usize = 0;
    proof {
        assert(storage_table@ =~= old(storage_table)@.union_prefer_right(
            storage_rows_at(entries.take(0), block_number),
        ));
    }
    while i < n
        invariant
            i <= n,
            n == entries.len(),
            entries == storage_entries(*storage_diffs),
            distinct_keys(entries),
            forall|k: int| 0 <= k < i ==> distinct_keys((#[trigger] entries[k]).1),
            storage_table@ == old(storage_table)@.union_prefer_right(
                storage_rows_at(entries.take(i as int), block_number),
            ),
        decreases n - i,
    {
        let (address, storage_entries_of) = map_get_index(storage_diffs, i).unwrap();
        let ghost inner = felt_entries(*storage_entries_of);
        let ghost before = storage_table@;
        let m: usize = felt_map_len(storage_entries_of);
        let mut j: usize = 0;
        proof {
            assert(before =~= before.union_prefer_right(
                contract_rows_at(*address, inner.take(0), block_number),
            ));
        }
        while j < m
            invariant
                j <= m,
                m == inner.len(),
                inner == felt_entries(*storage_entries_of),
                distinct_keys(inner),
                storage_table@ == before.union_prefer_right(
                    contract_rows_at(*address, inner.take(j as int), block_number),
                ),
            decreases m - j,
        {
            let (key, value) = map_get_index(storage_entries_of, j).unwrap();
            storage_table.upsert((*address, *key, block_number), *value);
            proof {
                lemma_contract_rows_at_step(*address, inner, j as int, block_number);
                assert(storage_table@ =~= before.union_prefer_right(
                    contract_rows_at(*address, inner.take(j + 1), block_number),
                ));
            }
            j = j + 1;
        }
        proof {
            assert(inner.take(m as int) =~= inner);
            lemma_storage_rows_at_step(entries, i as int, block_number);
            assert(storage_table@ =~= old(storage_table)@.union_prefer_right(
                storage_rows_at(entries.take(i + 1), block_number),
            ));
        }
        i = i + 1;
    }
    assert(entries.take(n as int) =~= entries);
}

/// Sets nonces of contracts in a block.
pub(crate) fn write_nonces(
    nonces: &IndexMap<ContractAddress, Nonce>,
    block_number: BlockNumber,
    contracts_table: &mut NoncesTable,
)
    ensures
        distinct_keys(felt_entries(*nonces)),
        final(contracts_table)@ == old(contracts_table)@.union_prefer_right(
            rows_at(felt_entries(*nonces), block_number),
        ),
{
    let ghost entries = felt_entries(*nonces);
    let n: usize = felt_map_len(nonces);
    let mut i: usize = 0;
    proof {
        assert(contracts_table@ =~= old(contracts_table)@.union_prefer_right(
            rows_at(entries.take(0), block_number),
        ));
    }
    while i < n
        invariant
            i <= n,
            n == entries.len(),
            entries == felt_entries(*nonces),
            distinct_keys(entries),
            contracts_table@ == old(contracts_table)@.union_prefer_right(
                rows_at(entries.take(i as int), block_number),
            ),
        decreases n - i,
    {
        let (contract_address, nonce) = map_get_index(nonces, i).unwrap();
        contracts_table.upsert((*contract_address, block_number), *nonce);
        proof {
            lemma_rows_at_step(entries, i as int, block_number);
            assert(contracts_table@ =~= old(contracts_table)@.union_prefer_right(
                rows_at(entries.take(i + 1), block_number),
            ));
        }
        i = i + 1;
    }
    assert(entries.take(n as int) =~= entries);
}

/// Replaces the classes of contracts in a block. Stops at the first contract that is refused: no
/// row that was there is overwritten, and the replacements before it stay.
pub(crate) fn write_replaced_classes(
    replaced_classes: &IndexMap<ContractAddress, ClassHash>,
    block_number: BlockNumber,
    deployed_contracts_table: &mut DeployedContractsTable,
) -> (r: StorageResult<()>)
    ensures
        distinct_keys(felt_entries(*replaced_classes)),
        ({
            let entries = felt_entries(*replaced_classes);
            let f = |e: (ContractAddress, ClassHash)|
                replace_error(old(deployed_contracts_table)@, e.0, block_number);
            match r {
                Ok(()) => {
                    &&& first_error(entries, f) is None
                    &&& final(deployed_contracts_table)@ == old(
                        deployed_contracts_table,
                    )@.union_prefer_right(rows_at(entries, block_number))
                },
                Err(e) => {
                    &&& first_error(entries, f) == Some(e)
                    &&& exists|j: int|
                        {
                            &&& #[trigger] refused_at(entries, f, j)
                            &&& final(deployed_contracts_table)@ == rows_at(
                                entries.take(j),
                                block_number,
                            ).union_prefer_right(old(deployed_contracts_table)@)
                        }
                },
            }
        }),
{
    let ghost entries = felt_entries(*replaced_classes);
    let ghost f = |e: (ContractAddress, ClassHash)|
        replace_error(old(deployed_contracts_table)@, e.0, block_number);
    let n: usize = felt_map_len(replaced_classes);
    let mut i: usize = 0;
    proof {
        assert(deployed_contracts_table@ =~= old(deployed_contracts_table)@.union_prefer_right(
            rows_at(entries.take(0), block_number),
        ));
        assert(deployed_contracts_table@ =~= rows_at(
            entries.take(0),
            block_number,
        ).union_prefer_right(old(deployed_contracts_table)@));
        assert(entries.take(0).len() == 0);
    }
    while i < n
        invariant
            i <= n,
            n == entries.len(),
            entries == felt_entries(*replaced_classes),
            distinct_keys(entries),
            f == (|e: (ContractAddress, ClassHash)|
                replace_error(old(deployed_contracts_table)@, e.0, block_number)),
            first_error(entries.take(i as int), f) is None,
            deployed_contracts_table@ == old(deployed_contracts_table)@.union_prefer_right(
                rows_at(entries.take(i as int), block_number),
            ),
            deployed_contracts_table@ == rows_at(
                entries.take(i as int),
                block_number,
            ).union_prefer_right(old(deployed_contracts_table)@),
        decreases n - i,
    {
        let (contract_address, class_hash) = map_get_index(replaced_classes, i).unwrap();
        proof {
            lemma_rows_at_step(entries, i as int, block_number);
            lemma_first_error_step(entries, i as int, f);
        }
        match deployed_contracts_table.insert((*contract_address, block_number), *class_hash) {
            Ok(()) => {},
            Err(err) => {
                assert(refused_at(entries, f, i as int));
                return Err(StorageError::InnerError(err));
            },
        }
        proof {
            assert(deployed_contracts_table@ =~= old(deployed_contracts_table)@.union_prefer_right(
                rows_at(entries.take(i + 1), block_number),
            ));
            assert(deployed_contracts_table@ =~= rows_at(
                entries.take(i + 1),
                block_number,
            ).union_prefer_right(old(deployed_contracts_table)@));
        }
        i = i + 1;
    }
    assert(entries.take(n as int) =~= entries);
    Ok(())
}

/// Declares Cairo 1 classes in a block. Stops at the first class that is refused: no row that was
/// there is overwritten, the classes before it stay declared, and it gets its row in the table that
/// had none for it, if any.
pub(crate) fn write_declared_classes(
    declared_classes: &IndexMap<ClassHash, ContractClass>,
    declared_classes_table: &mut DeclaredClassesTable,
    block_number: BlockNumber,
    declared_classes_block_table: &mut DeclaredClassesBlockTable,
) -> (r: StorageResult<()>)
    ensures
        ({
            let entries = class_entries(*declared_classes);
            let blocks = with_value(entries, block_number);
            let f = |e: (ClassHash, ContractClass)|
                declare_error(
                    old(declared_classes_table)@,
                    old(declared_classes_block_table)@,
                    e.0,
                );
            match r {
                Ok(()) => {
                    &&& first_error(entries, f) is None
                    &&& final(declared_classes_table)@ == old(
                        declared_classes_table,
                    )@.union_prefer_right(entries_map(entries))
                    &&& final(declared_classes_block_table)@ == old(
                        declared_classes_block_table,
                    )@.union_prefer_right(entries_map(blocks))
                },
                Err(e) => {
                    &&& first_error(entries, f) == Some(e)
                    &&& exists|j: int|
                        {
                            &&& #[trigger] refused_at(entries, f, j)
                            &&& final(declared_classes_table)@ == entries_map(
                                entries.take(j + 1),
                            ).union_prefer_right(old(declared_classes_table)@)
                            &&& final(declared_classes_block_table)@ == entries_map(
                                blocks.take(j + 1),
                            ).union_prefer_right(old(declared_classes_block_table)@)
                        }
                },
            }
        }),
{
    let ghost entries = class_entries(*declared_classes);
    let ghost blocks = with_value(entries, block_number);
    let ghost f = |e: (ClassHash, ContractClass)|
        declare_error(old(declared_classes_table)@, old(declared_classes_block_table)@, e.0);
    let n: usize = class_map_len(declared_classes);
    let mut i: usize = 0;
    proof {
        assert(declared_classes_table@ =~= old(declared_classes_table)@.union_prefer_right(
            entries_map(entries.take(0)),
        ));
        assert(declared_classes_block_table@ =~= old(
            declared_classes_block_table,
        )@.union_prefer_right(entries_map(blocks.take(0))));
        assert(declared_classes_table@ =~= entries_map(entries.take(0)).union_prefer_right(
            old(declared_classes_table)@,
        ));
        assert(declared_classes_block_table@ =~= entries_map(blocks.take(0)).union_prefer_right(
            old(declared_classes_block_table)@,
        ));
        assert(entries.take(0).len() == 0);
    }
    while i < n
        invariant
            i <= n,
            n == entries.len(),
            entries == class_entries(*declared_classes),
            blocks == with_value(entries, block_number),
            distinct_keys(entries),
            distinct_keys(blocks),
            f == (|e: (ClassHash, ContractClass)|
                declare_error(
                    old(declared_classes_table)@,
                    old(declared_classes_block_table)@,
                    e.0,
                )),
            first_error(entries.take(i as int), f) is None,
            declared_classes_table@ == old(declared_classes_table)@.union_prefer_right(
                entries_map(entries.take(i as int)),
            ),
            declared_classes_block_table@ == old(declared_classes_block_table)@.union_prefer_right(
                entries_map(blocks.take(i as int)),
            ),
            declared_classes_table@ == entries_map(entries.take(i as int)).union_prefer_right(
                old(declared_classes_table)@,
            ),
            declared_classes_block_table@ == entries_map(blocks.take(i as int)).union_prefer_right(
                old(declared_classes_block_table)@,
            ),
        decreases n - i,
    {
        let (class_hash, contract_class) = map_get_index(declared_classes, i).unwrap();
        proof {
            lemma_rows_at_step(entries, i as int, block_number);
            lemma_rows_at_step(blocks, i as int, block_number);
            lemma_take_step(entries, i as int);
            lemma_take_step(blocks, i as int);
            lemma_first_error_step(entries, i as int, f);
        }
        let res_class = declared_classes_table.insert(*class_hash, contract_class.clone());
        let res_block = declared_classes_block_table.insert(*class_hash, block_number);
        proof {
            assert(declared_classes_table@ =~= entries_map(entries.take(i + 1)).union_prefer_right(
                old(declared_classes_table)@,
            ));
            assert(declared_classes_block_table@ =~= entries_map(
                blocks.take(i + 1),
            ).union_prefer_right(old(declared_classes_block_table)@));
        }
        if res_class.is_err() || res_block.is_err() {
            assert(refused_at(entries, f, i as int));
            return Err(StorageError::ClassAlreadyExists { class_hash: *class_hash });
        }
        proof {
            assert(declared_classes_table@ =~= old(declared_classes_table)@.union_prefer_right(
                entries_map(entries.take(i + 1)),
            ));
            assert(declared_classes_block_table@ =~= old(
                declared_classes_block_table,
            )@.union_prefer_right(entries_map(blocks.take(i + 1))));
        }
        i = i + 1;
    }
    proof {
        assert(entries.take(n as int) =~= entries);
        assert(blocks.take(n as int) =~= blocks);
    }
    Ok(())
}

/// Declares Cairo 0 classes in a block. A class that is stored with the same definition stays as
/// it is. Stops at the first class that is stored with another definition, which stays as it is
/// too, and so do the classes declared before it.
pub(crate) fn write_deprecated_declared_classes(
    deprecated_declared_classes: IndexMap<ClassHash, DeprecatedContractClass>,
    block_number: BlockNumber,
    deprecated_declared_classes_table: &mut DeprecatedDeclaredClassesTable,
) -> (r: StorageResult<()>)
    ensures
        ({
            let entries = deprecated_entries(deprecated_declared_classes);
            let f = |e: (ClassHash, DeprecatedContractClass)|
                declare_deprecated_error(old(deprecated_declared_classes_table)@, e.0, e.1);
            match r {
                Ok(()) => {
                    &&& first_error(entries, f) is None
                    &&& final(deprecated_declared_classes_table)@ == indexed_classes(
                        entries,
                        block_number,
                    ).union_prefer_right(old(deprecated_declared_classes_table)@)
                },
                Err(e) => {
                    &&& first_error(entries, f) == Some(e)
                    &&& exists|j: int|
                        {
                            &&& #[trigger] refused_at(entries, f, j)
                            &&& final(deprecated_declared_classes_table)@ == indexed_classes(
                                entries.take(j),
                                block_number,
                            ).union_prefer_right(old(deprecated_declared_classes_table)@)
                        }
                },
            }
        }),
{
    let ghost entries = deprecated_entries(deprecated_declared_classes);
    let ghost f = |e: (ClassHash, DeprecatedContractClass)|
        declare_deprecated_error(old(deprecated_declared_classes_table)@, e.0, e.1);
    let n: usize = deprecated_map_len(&deprecated_declared_classes);
    let mut i: usize = 0;
    proof {
        assert(deprecated_declared_classes_table@ =~= indexed_classes(
            entries.take(0),
            block_number,
        ).union_prefer_right(old(deprecated_declared_classes_table)@));
        assert(entries.take(0).len() == 0);
    }
    while i < n
        invariant
            i <= n,
            n == entries.len(),
            entries == deprecated_entries(deprecated_declared_classes),
            distinct_keys(entries),
            f == (|e: (ClassHash, DeprecatedContractClass)|
                declare_deprecated_error(old(deprecated_declared_classes_table)@, e.0, e.1)),
            first_error(entries.take(i as int), f) is None,
            deprecated_declared_classes_table@ == indexed_classes(
                entries.take(i as int),
                block_number,
            ).union_prefer_right(old(deprecated_declared_classes_table)@),
        decreases n - i,
    {
        let (class_hash, deprecated_contract_class) = map_get_index(
            &deprecated_declared_classes,
            i,
        ).unwrap();
        let ghost before = deprecated_declared_classes_table@;
        proof {
            lemma_take_step(entries, i as int);
            lemma_first_error_step(entries, i as int, f);
        }
        let mut is_new = true;
        if let Some(value) = deprecated_declared_classes_table.get(class_hash) {
            if !same_deprecated_class(&value.contract_class, deprecated_contract_class) {
                assert(refused_at(entries, f, i as int));
                return Err(StorageError::ClassAlreadyExists { class_hash: *class_hash });
            }
            is_new = false;
        }
        if is_new {
            let value = IndexedDeprecatedContractClass {
                block_number,
                contract_class: deprecated_contract_class.clone(),
            };
            match deprecated_declared_classes_table.insert(*class_hash, value) {
                Ok(()) => {},
                Err(err) => {
                    return Err(StorageError::InnerError(err));
                },
            }
        }
        proof {
            assert(deprecated_declared_classes_table@ =~= indexed_classes(
                entries.take(i + 1),
                block_number,
            ).union_prefer_right(old(deprecated_declared_classes_table)@));
        }
        i = i + 1;
    }
    assert(entries.take(n as int) =~= entries);
    Ok(())
}

} // verus!
