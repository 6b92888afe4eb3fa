//! Writing the state diff of a block.
use vstd::prelude::*;

use crate::block::BlockNumber;
use crate::db::DbError;
#[allow(unused_imports)]
use crate::felt::ClassHash;
use crate::felt::ContractAddress;
#[allow(unused_imports)]
use crate::index_map::{distinct_keys, has_key, value_of};
#[allow(unused_imports)]
use crate::state::lemmas::lemma_push_entry;
#[allow(unused_imports)]
use crate::state::model::entries_map;
use crate::storage::{ContractStorageTable, StorageError, StorageResult};

#[allow(unused_imports)]
use super::model::{
    deploy_error, entry_rows_at, indexed_contracts, refused_contract_at, write_rows_at,
};
use super::state_diff::StateDiffForward;
use super::storage::{ContractsTable, IndexedDeployedContract};

verus! {

/// Deploys the contracts of a state diff in a block. Stops at the first contract that is there
/// already or comes a second time: its first row stays, and so do the contracts deployed before it.
pub(crate) fn write_deployed_contracts(
    state_diff: &StateDiffForward,
    block_number: BlockNumber,
    contracts_table: &mut ContractsTable,
) -> (r: StorageResult<()>)
    ensures
        ({
            let error = deploy_error(old(contracts_table)@, state_diff@.deployed_contracts);
            match r {
                Ok(()) => {
                    &&& error is None
                    &&& distinct_keys(state_diff@.deployed_contracts)
                    &&& final(contracts_table)@ == old(contracts_table)@.union_prefer_right(
                        indexed_contracts(state_diff@.deployed_contracts, block_number),
                    )
                },
                Err(e) => {
                    &&& error == Some(e)
                    &&& exists|j: int|
                        {
                            &&& #[trigger] refused_contract_at(
                                old(contracts_table)@,
                                state_diff@.deployed_contracts,
                                j,
                            )
                            &&& distinct_keys(state_diff@.deployed_contracts.take(j))
                            &&& final(contracts_table)@ == indexed_contracts(
                                state_diff@.deployed_contracts.take(j),
                                block_number,
                            ).union_prefer_right(old(contracts_table)@)
                        }
                },
            }
        }),
{
    let ghost before = contracts_table@;
    let ghost all = state_diff@.deployed_contracts;
    let mut i: usize = 0;
    proof {
        assert(all.take(0).len() == 0);
        assert(contracts_table@ =~= before.union_prefer_right(
            indexed_contracts(all.take(0), block_number),
        ));
        assert(contracts_table@ =~= indexed_contracts(all.take(0), block_number).union_prefer_right(
            before,
        ));
    }
    while i < state_diff.deployed_contracts.len()
        invariant
            i <= state_diff.deployed_contracts.len(),
            all == state_diff@.deployed_contracts,
            all.len() == state_diff.deployed_contracts.len(),
            before == old(contracts_table)@,
            distinct_keys(all.take(i as int)),
            deploy_error(before, all.take(i as int)) is None,
            contracts_table@ == before.union_prefer_right(
                indexed_contracts(all.take(i as int), block_number),
            ),
            contracts_table@ == indexed_contracts(
                all.take(i as int),
                block_number,
            ).union_prefer_right(before),
        decreases state_diff.deployed_contracts.len() - i,
    {
        let deployed_contract = &state_diff.deployed_contracts[i];
        let class_hash = deployed_contract.class_hash;
        let value = IndexedDeployedContract { block_number, class_hash };
        let ghost done = all.take(i as int);
        proof {
            assert(all[i as int] == deployed_contract@);
            assert(all.take(i + 1).drop_last() =~= done);
            assert(all.take(i + 1).last() == deployed_contract@);
        }
        match contracts_table.insert(deployed_contract.address, value) {
            Ok(()) => {
                proof {
                    lemma_push_contract(done, deployed_contract@, block_number);
                    assert(all.take(i + 1) =~= done.push(deployed_contract@));
                    assert(contracts_table@ =~= before.union_prefer_right(
                        indexed_contracts(all.take(i + 1), block_number),
                    ));
                    assert(contracts_table@ =~= indexed_contracts(
                        all.take(i + 1),
                        block_number,
                    ).union_prefer_right(before));
                }
            },
            Err(DbError::KeyExist) => {
                proof {
                    lemma_deploy_error_stays(before, all, i + 1);
                    assert(refused_contract_at(before, all, i as int));
                }
                return Err(
                    StorageError::ContractAlreadyExists { address: deployed_contract.address },
                );
            },
        }
        i += 1;
    }
    assert(all.take(i as int) =~= all);
    Ok(())
}

/// The error of the first contracts is the error of all.
pub proof fn lemma_deploy_error_stays(
    contracts: Map<ContractAddress, IndexedDeployedContract>,
    s: Seq<(ContractAddress, ClassHash)>,
    n: int,
)
    requires
        0 <= n <= s.len(),
        deploy_error(contracts, s.take(n)) is Some,
    ensures
        deploy_error(contracts, s) == deploy_error(contracts, s.take(n)),
    decreases s.len(),
{
    if n < s.len() {
        assert(s.drop_last().take(n) =~= s.take(n));
        lemma_deploy_error_stays(contracts, s.drop_last(), n);
    } else {
        assert(s.take(n) =~= s);
    }
}

/// One more contract adds its row.
proof fn lemma_push_contract(
    s: Seq<(ContractAddress, ClassHash)>,
    c: (ContractAddress, ClassHash),
    b: BlockNumber,
)
    requires
        distinct_keys(s),
        !has_key(s, c.0),
    ensures
        distinct_keys(s.push(c)),
        indexed_contracts(s.push(c), b) == indexed_contracts(s, b).insert(
            c.0,
            IndexedDeployedContract { block_number: b, class_hash: c.1 },
        ),
{
    let t = s.push(c);
    lemma_push_entry(s, c.0, c.1);
    assert forall|k: ContractAddress| #[trigger] has_key(t, k) <==> has_key(s, k) || k == c.0 by {
        assert(entries_map(t).contains_key(k) <==> entries_map(s).insert(c.0, c.1).contains_key(k));
    }
    assert forall|k: ContractAddress| has_key(t, k) implies #[trigger] value_of(t, k) == (if k
        == c.0 {
        c.1
    } else {
        value_of(s, k)
    }) by {
        assert(entries_map(t)[k] == entries_map(s).insert(c.0, c.1)[k]);
    }
    assert(indexed_contracts(t, b) =~= indexed_contracts(s, b).insert(
        c.0,
        IndexedDeployedContract { block_number: b, class_hash: c.1 },
    ));
}

/// Sets the storage of a state diff in a block.
pub(crate) fn write_storage_diffs(
    state_diff: &StateDiffForward,
    block_number: BlockNumber,
    storage_table: &mut ContractStorageTable,
)
    ensures
        final(storage_table)@ == old(storage_table)@.union_prefer_right(
            write_rows_at(state_diff@.storage_diffs, block_number),
        ),
{
    let ghost before = storage_table@;
    let ghost all = state_diff@.storage_diffs;
    let mut i: usize = 0;
    assert(storage_table@ =~= before.union_prefer_right(write_rows_at(all.take(0), block_number)));
    while i < state_diff.storage_diffs.len()
        invariant
            i <= state_diff.storage_diffs.len(),
            all == state_diff@.storage_diffs,
            all.len() == state_diff.storage_diffs.len(),
            storage_table@ == before.union_prefer_right(
                write_rows_at(all.take(i as int), block_number),
            ),
        decreases state_diff.storage_diffs.len() - i,
    {
        let storage_diff = &state_diff.storage_diffs[i];
        let address: ContractAddress = storage_diff.address;
        let ghost outer = storage_table@;
        let ghost entries = storage_diff@.1;
        assert(all[i as int] == storage_diff@);
        let mut j: usize = 0;
        assert(storage_table@ =~= outer.union_prefer_right(
            entry_rows_at(address, entries.take(0), block_number),
        ));
        while j < storage_diff.diff.len()
            invariant
                j <= storage_diff.diff.len(),
                entries == storage_diff@.1,
                entries.len() == storage_diff.diff.len(),
                address == storage_diff.address,
                storage_table@ == outer.union_prefer_right(
                    entry_rows_at(address, entries.take(j as int), block_number),
                ),
            decreases storage_diff.diff.len() - j,
        {
            let entry = &storage_diff.diff[j];
            storage_table.upsert((address, entry.key, block_number), entry.value);
            proof {
                assert(entries[j as int] == entry@);
                assert(entries.take(j + 1).drop_last() =~= entries.take(j as int));
                assert(entries.take(j + 1).last() == entry@);
                assert(storage_table@ =~= outer.union_prefer_right(
                    entry_rows_at(address, entries.take(j + 1), block_number),
                ));
            }
            j += 1;
        }
        proof {
            assert(entries.take(j as int) =~= entries);
            assert(all.take(i + 1).drop_last() =~= all.take(i as int));
            assert(all.take(i + 1).last() == storage_diff@);
            assert(storage_table@ =~= before.union_prefer_right(
                write_rows_at(all.take(i + 1), block_number),
            ));
        }
        i += 1;
    }
    assert(all.take(i as int) =~= all);
}

} // verus!
