//! The state as the node keeps it.
use papyrus::block::{BlockNumber, StateNumber};
use papyrus::db::DbError;
use papyrus::felt::{ContractAddress, StarkFelt};
use papyrus::node::state::{StateReader, StateStorageReader, StateStorageWriter};
use papyrus::node::state_diff::{DeployedContract, StateDiffForward, StorageDiff, StorageEntry};
use papyrus::node::storage::{StorageTxn, Tables};
use papyrus::storage::{StorageError, RW};

fn felt(n: u128) -> StarkFelt {
    (0, n)
}

fn deployed(address: u128, class_hash: u128) -> DeployedContract {
    DeployedContract { address: felt(address), class_hash: felt(class_hash) }
}

fn storage(address: u128, entries: &[(u128, u128)]) -> StorageDiff {
    let diff = entries
        .iter()
        .map(|(key, value)| StorageEntry { key: felt(*key), value: felt(*value) })
        .collect();
    StorageDiff { address: felt(address), diff }
}

fn begin() -> StorageTxn<RW> {
    StorageTxn::begin(Tables::new())
}

fn class_hash(txn: &StorageTxn<RW>, state: u64, address: u128) -> Option<StarkFelt> {
    let reader = StateReader::new(txn).unwrap();
    reader.get_class_hash_at(StateNumber(BlockNumber(state)), &felt(address)).unwrap()
}

fn value(txn: &StorageTxn<RW>, state: u64, address: u128, key: u128) -> StarkFelt {
    let reader = txn.get_state_reader().unwrap();
    reader.get_storage_at(StateNumber(BlockNumber(state)), &felt(address), &felt(key)).unwrap()
}

fn two_blocks() -> StorageTxn<RW> {
    let first = StateDiffForward {
        deployed_contracts: vec![deployed(1, 11), deployed(2, 12)],
        storage_diffs: vec![storage(1, &[(100, 5), (101, 6)]), storage(2, &[(100, 7)])],
    };
    let second = StateDiffForward {
        deployed_contracts: vec![deployed(3, 13)],
        storage_diffs: vec![
            storage(1, &[(100, 8), (100, 9)]),
            storage(2, &[(101, 1)]),
            storage(2, &[(101, 2)]),
        ],
    };
    begin()
        .append_state_diff(BlockNumber(0), &first)
        .unwrap()
        .append_state_diff(BlockNumber(1), &second)
        .unwrap()
}

#[test]
fn node_starts_empty() {
    let txn = begin();
    assert_eq!(txn.get_state_marker().unwrap(), BlockNumber(0));
    assert!(txn.get_state_diff(BlockNumber(0)).unwrap().is_none());
    assert_eq!(class_hash(&txn, 5, 1), None);
    assert_eq!(value(&txn, 5, 1, 100), felt(0));
}

#[test]
fn node_reads_what_was_appended() {
    let txn = two_blocks();
    assert_eq!(txn.get_state_marker().unwrap(), BlockNumber(2));
    // Deployed contracts are seen from the state after their block on.
    assert_eq!(class_hash(&txn, 0, 1), None);
    assert_eq!(class_hash(&txn, 1, 1), Some(felt(11)));
    assert_eq!(class_hash(&txn, 2, 1), Some(felt(11)));
    assert_eq!(class_hash(&txn, 1, 2), Some(felt(12)));
    assert_eq!(class_hash(&txn, 1, 3), None);
    assert_eq!(class_hash(&txn, 2, 3), Some(felt(13)));
    assert_eq!(class_hash(&txn, 2, 4), None);
    // The last value that a block sets counts.
    assert_eq!(value(&txn, 0, 1, 100), felt(0));
    assert_eq!(value(&txn, 1, 1, 100), felt(5));
    assert_eq!(value(&txn, 2, 1, 100), felt(9));
    assert_eq!(value(&txn, 9, 1, 100), felt(9));
    assert_eq!(value(&txn, 2, 1, 101), felt(6));
    assert_eq!(value(&txn, 2, 2, 100), felt(7));
    assert_eq!(value(&txn, 1, 2, 101), felt(0));
    assert_eq!(value(&txn, 2, 2, 101), felt(2));
    assert_eq!(value(&txn, 2, 3, 100), felt(0));
    // The state diff is kept as it was.
    let diff = txn.get_state_diff(BlockNumber(1)).unwrap().unwrap();
    assert_eq!(diff.deployed_contracts, vec![deployed(3, 13)]);
    assert_eq!(
        diff.storage_diffs,
        vec![
            storage(1, &[(100, 8), (100, 9)]),
            storage(2, &[(101, 1)]),
            storage(2, &[(101, 2)]),
        ]
    );
}

#[test]
fn node_adds_blocks_in_order() {
    let diff = StateDiffForward { deployed_contracts: vec![], storage_diffs: vec![] };
    let Err(StorageError::MarkerMismatch { expected, found }) =
        begin().append_state_diff(BlockNumber(1), &diff)
    else {
        panic!("block 1 comes after block 0");
    };
    assert_eq!((expected, found), (BlockNumber(0), BlockNumber(1)));
    let txn = begin().append_state_diff(BlockNumber(0), &diff).unwrap();
    let Err(StorageError::MarkerMismatch { expected, found }) =
        txn.append_state_diff(BlockNumber(0), &diff)
    else {
        panic!("block 0 is there already");
    };
    assert_eq!((expected, found), (BlockNumber(1), BlockNumber(0)));
}

fn refused_contract(txn: StorageTxn<RW>, block: u64, diff: StateDiffForward) -> ContractAddress {
    match txn.append_state_diff(BlockNumber(block), &diff) {
        Err(StorageError::ContractAlreadyExists { address }) => address,
        _ => panic!("expected a refused contract"),
    }
}

#[test]
fn node_deploys_a_contract_only_once() {
    let again = StateDiffForward {
        deployed_contracts: vec![deployed(4, 14), deployed(2, 12)],
        storage_diffs: vec![],
    };
    assert_eq!(refused_contract(two_blocks(), 2, again), felt(2));
    let twice = StateDiffForward {
        deployed_contracts: vec![deployed(4, 14), deployed(5, 14), deployed(4, 15)],
        storage_diffs: vec![],
    };
    assert_eq!(refused_contract(two_blocks(), 2, twice), felt(4));
}

#[test]
fn node_refuses_a_second_state_diff() {
    let mut tables = Tables::new();
    let diff = StateDiffForward { deployed_contracts: vec![], storage_diffs: vec![] };
    assert_eq!(tables.state_diffs.insert(BlockNumber(0), diff.clone()), Ok(()));
    let txn: StorageTxn<RW> = StorageTxn::begin(tables);
    assert!(matches!(
        txn.append_state_diff(BlockNumber(0), &diff),
        Err(StorageError::InnerError(DbError::KeyExist))
    ));
}
