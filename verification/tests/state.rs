//! Adding, reading and taking back blocks.
use cairo_lang_starknet::casm_contract_class::CasmContractClass;
use indexmap::IndexMap;
use papyrus::block::{BlockNumber, StateNumber};
use papyrus::db::DbError;
use papyrus::felt::{ClassHash, StarkFelt};
use papyrus::state::{RevertedStateDiff, StateStorageReader, StateStorageWriter};
use papyrus::state_diff::{StateDiff, ThinStateDiff};
use papyrus::storage::{MarkerKind, StorageError, StorageTxn, Tables, RW};
use starknet_api::deprecated_contract_class::ContractClass as DeprecatedContractClass;
use starknet_api::state::ContractClass;

type Definitions = IndexMap<ClassHash, DeprecatedContractClass>;

fn felt(n: u128) -> StarkFelt {
    (0, n)
}

fn felts(entries: &[(u128, u128)]) -> IndexMap<StarkFelt, StarkFelt> {
    entries.iter().map(|(key, value)| (felt(*key), felt(*value))).collect()
}

fn class(name: &str) -> ContractClass {
    ContractClass { abi: String::from(name), ..ContractClass::default() }
}

fn deprecated_class(name: &str) -> DeprecatedContractClass {
    let mut class = DeprecatedContractClass::default();
    class.program.data = serde_json::Value::String(String::from(name));
    class
}

fn casm(name: &str) -> CasmContractClass {
    CasmContractClass { compiler_version: String::from(name), ..CasmContractClass::default() }
}

fn definitions(entries: &[(u128, &str)]) -> Definitions {
    entries.iter().map(|(hash, name)| (felt(*hash), deprecated_class(name))).collect()
}

fn empty_diff() -> StateDiff {
    StateDiff {
        deployed_contracts: IndexMap::new(),
        storage_diffs: IndexMap::new(),
        declared_classes: IndexMap::new(),
        deprecated_declared_classes: IndexMap::new(),
        nonces: IndexMap::new(),
        replaced_classes: IndexMap::new(),
    }
}

/// Deploys contracts 1 and 2, declares a class of each kind, and sets storage and a nonce.
fn first_diff() -> StateDiff {
    StateDiff {
        deployed_contracts: felts(&[(1, 50), (2, 51)]),
        storage_diffs: IndexMap::from([
            (felt(2), felts(&[(100, 4)])),
            (felt(1), felts(&[(101, 6), (100, 5)])),
        ]),
        declared_classes: IndexMap::from([(felt(60), (felt(160), class("sixty")))]),
        deprecated_declared_classes: definitions(&[(50, "fifty")]),
        nonces: felts(&[(1, 7)]),
        replaced_classes: IndexMap::new(),
    }
}

/// Deploys contract 3, replaces the class of contract 1, declares more classes.
fn second_diff() -> StateDiff {
    StateDiff {
        deployed_contracts: felts(&[(3, 52)]),
        storage_diffs: IndexMap::from([(felt(1), felts(&[(100, 8)]))]),
        declared_classes: IndexMap::from([
            (felt(63), (felt(163), class("sixty-three"))),
            (felt(61), (felt(161), class("sixty-one"))),
            (felt(62), (felt(162), class("sixty-two"))),
        ]),
        deprecated_declared_classes: definitions(&[(53, "fifty-three"), (50, "fifty")]),
        nonces: felts(&[(2, 9), (3, 1)]),
        replaced_classes: felts(&[(1, 61)]),
    }
}

fn begin() -> StorageTxn<RW> {
    StorageTxn::begin(Tables::new())
}

fn one_block() -> StorageTxn<RW> {
    begin()
        .append_state_diff(BlockNumber(0), first_diff(), definitions(&[(51, "fifty-one")]))
        .unwrap()
}

fn two_blocks() -> StorageTxn<RW> {
    one_block()
        .append_state_diff(BlockNumber(1), second_diff(), definitions(&[(52, "fifty-two")]))
        .unwrap()
}

fn state(n: u64) -> StateNumber {
    StateNumber(BlockNumber(n))
}

fn class_hash(txn: &StorageTxn<RW>, n: u64, address: u128) -> Option<StarkFelt> {
    txn.get_state_reader().unwrap().get_class_hash_at(state(n), &felt(address)).unwrap()
}

fn nonce(txn: &StorageTxn<RW>, n: u64, address: u128) -> Option<StarkFelt> {
    txn.get_state_reader().unwrap().get_nonce_at(state(n), &felt(address)).unwrap()
}

fn value(txn: &StorageTxn<RW>, n: u64, address: u128, key: u128) -> StarkFelt {
    txn.get_state_reader().unwrap().get_storage_at(state(n), &felt(address), &felt(key)).unwrap()
}

fn definition(txn: &StorageTxn<RW>, n: u64, hash: u128) -> Option<ContractClass> {
    txn.get_state_reader().unwrap().get_class_definition_at(state(n), &felt(hash)).unwrap()
}

fn deprecated_definition(
    txn: &StorageTxn<RW>,
    n: u64,
    hash: u128,
) -> Option<DeprecatedContractClass> {
    txn.get_state_reader()
        .unwrap()
        .get_deprecated_class_definition_at(state(n), &felt(hash))
        .unwrap()
}

fn refusal(txn: StorageTxn<RW>, block: u64, diff: StateDiff, given: Definitions) -> StorageError {
    match txn.append_state_diff(BlockNumber(block), diff, given) {
        Ok(_) => panic!("expected a refused block"),
        Err(error) => error,
    }
}

fn pairs<V: Clone>(map: &IndexMap<StarkFelt, V>) -> Vec<(StarkFelt, V)> {
    map.iter().map(|(key, value)| (*key, value.clone())).collect()
}

fn revert(txn: StorageTxn<RW>, block: u64) -> (StorageTxn<RW>, RevertedStateDiff) {
    let (txn, reverted) = txn.revert_state_diff(BlockNumber(block)).unwrap();
    (txn, reverted.unwrap())
}

#[test]
fn state_starts_empty() {
    let txn = begin();
    assert_eq!(txn.get_state_marker().unwrap(), BlockNumber(0));
    assert!(txn.get_state_diff(BlockNumber(0)).unwrap().is_none());
    assert_eq!(class_hash(&txn, 3, 1), None);
    assert_eq!(nonce(&txn, 3, 1), None);
    assert_eq!(value(&txn, 3, 1, 100), felt(0));
    assert_eq!(definition(&txn, 3, 60), None);
    assert_eq!(deprecated_definition(&txn, 3, 50), None);
}

#[test]
fn class_hashes_follow_deployments_and_replacements() {
    let txn = two_blocks();
    assert_eq!(txn.get_state_marker().unwrap(), BlockNumber(2));
    assert_eq!(class_hash(&txn, 0, 1), None);
    assert_eq!(class_hash(&txn, 1, 1), Some(felt(50)));
    assert_eq!(class_hash(&txn, 2, 1), Some(felt(61)));
    assert_eq!(class_hash(&txn, 1, 2), Some(felt(51)));
    assert_eq!(class_hash(&txn, 2, 2), Some(felt(51)));
    assert_eq!(class_hash(&txn, 1, 3), None);
    assert_eq!(class_hash(&txn, 2, 3), Some(felt(52)));
    assert_eq!(class_hash(&txn, 2, 4), None);
    assert_eq!(class_hash(&txn, 2, 0), None);
}

#[test]
fn nonces_start_at_zero() {
    let txn = two_blocks();
    assert_eq!(nonce(&txn, 0, 1), None);
    // A nonce in the block of the deployment counts.
    assert_eq!(nonce(&txn, 1, 1), Some(felt(7)));
    assert_eq!(nonce(&txn, 2, 1), Some(felt(7)));
    assert_eq!(nonce(&txn, 1, 2), Some(felt(0)));
    assert_eq!(nonce(&txn, 2, 2), Some(felt(9)));
    assert_eq!(nonce(&txn, 1, 3), None);
    assert_eq!(nonce(&txn, 2, 3), Some(felt(1)));
    assert_eq!(nonce(&txn, 9, 4), None);
}

#[test]
fn storage_keeps_the_latest_value() {
    let txn = two_blocks();
    assert_eq!(value(&txn, 0, 1, 100), felt(0));
    assert_eq!(value(&txn, 1, 1, 100), felt(5));
    assert_eq!(value(&txn, 2, 1, 100), felt(8));
    assert_eq!(value(&txn, 7, 1, 100), felt(8));
    assert_eq!(value(&txn, 1, 1, 101), felt(6));
    assert_eq!(value(&txn, 2, 1, 101), felt(6));
    assert_eq!(value(&txn, 2, 2, 100), felt(4));
    assert_eq!(value(&txn, 2, 2, 101), felt(0));
    assert_eq!(value(&txn, 2, 3, 100), felt(0));
}

#[test]
fn classes_are_declared_from_their_block_on() {
    let txn = two_blocks();
    let reader = txn.get_state_reader().unwrap();
    assert_eq!(definition(&txn, 0, 60), None);
    assert_eq!(definition(&txn, 1, 60), Some(class("sixty")));
    assert_eq!(definition(&txn, 1, 61), None);
    assert_eq!(definition(&txn, 2, 61), Some(class("sixty-one")));
    assert_eq!(definition(&txn, 2, 62), Some(class("sixty-two")));
    assert_eq!(definition(&txn, 2, 64), None);
    let block_of =
        |hash: u128| reader.get_class_definition_block_number(&felt(hash)).unwrap();
    assert_eq!(block_of(60), Some(BlockNumber(0)));
    assert_eq!(block_of(62), Some(BlockNumber(1)));
    assert_eq!(block_of(64), None);
}

#[test]
fn deprecated_classes_keep_their_first_block() {
    let txn = two_blocks();
    // Declared by the state diff, and once more in the next block.
    assert_eq!(deprecated_definition(&txn, 0, 50), None);
    assert_eq!(deprecated_definition(&txn, 1, 50), Some(deprecated_class("fifty")));
    // Given for a deployed contract.
    assert_eq!(deprecated_definition(&txn, 1, 51), Some(deprecated_class("fifty-one")));
    assert_eq!(deprecated_definition(&txn, 1, 52), None);
    assert_eq!(deprecated_definition(&txn, 2, 52), Some(deprecated_class("fifty-two")));
    assert_eq!(deprecated_definition(&txn, 2, 53), Some(deprecated_class("fifty-three")));
    assert_eq!(deprecated_definition(&txn, 2, 54), None);
}

#[test]
fn state_diffs_are_kept_without_definitions() {
    let txn = two_blocks();
    let diff = txn.get_state_diff(BlockNumber(0)).unwrap().unwrap();
    assert_eq!(pairs(&diff.deployed_contracts), vec![(felt(1), felt(50)), (felt(2), felt(51))]);
    assert_eq!(
        diff.storage_diffs.iter().map(|(k, v)| (*k, pairs(v))).collect::<Vec<_>>(),
        vec![
            (felt(2), vec![(felt(100), felt(4))]),
            (felt(1), vec![(felt(101), felt(6)), (felt(100), felt(5))]),
        ]
    );
    assert_eq!(pairs(&diff.declared_classes), vec![(felt(60), felt(160))]);
    assert_eq!(diff.deprecated_declared_classes, vec![felt(50)]);
    assert_eq!(pairs(&diff.nonces), vec![(felt(1), felt(7))]);
    assert_eq!(pairs(&diff.replaced_classes), vec![]);
    let diff = txn.get_state_diff(BlockNumber(1)).unwrap().unwrap();
    assert_eq!(
        pairs(&diff.declared_classes),
        vec![(felt(63), felt(163)), (felt(61), felt(161)), (felt(62), felt(162))]
    );
    assert_eq!(diff.deprecated_declared_classes, vec![felt(53), felt(50)]);
    assert!(txn.get_state_diff(BlockNumber(2)).unwrap().is_none());
}

#[test]
fn a_state_diff_is_split_in_its_order() {
    let (thin, classes, deprecated) = ThinStateDiff::from_state_diff(second_diff());
    assert_eq!(
        pairs(&classes),
        vec![
            (felt(63), class("sixty-three")),
            (felt(61), class("sixty-one")),
            (felt(62), class("sixty-two")),
        ]
    );
    assert_eq!(
        pairs(&deprecated),
        vec![(felt(53), deprecated_class("fifty-three")), (felt(50), deprecated_class("fifty"))]
    );
    let copy = thin.clone();
    assert_eq!(pairs(&copy.deployed_contracts), vec![(felt(3), felt(52))]);
    assert_eq!(pairs(&copy.storage_diffs[&felt(1)]), vec![(felt(100), felt(8))]);
    assert_eq!(pairs(&copy.declared_classes), pairs(&thin.declared_classes));
    assert_eq!(copy.deprecated_declared_classes, vec![felt(53), felt(50)]);
    assert_eq!(pairs(&copy.nonces), vec![(felt(2), felt(9)), (felt(3), felt(1))]);
    assert_eq!(pairs(&copy.replaced_classes), vec![(felt(1), felt(61))]);
}

#[test]
fn blocks_are_added_in_order() {
    let StorageError::MarkerMismatch { expected, found } =
        refusal(begin(), 1, empty_diff(), IndexMap::new())
    else {
        panic!("block 1 comes after block 0");
    };
    assert_eq!((expected, found), (BlockNumber(0), BlockNumber(1)));
    let StorageError::MarkerMismatch { expected, found } =
        refusal(one_block(), 0, empty_diff(), IndexMap::new())
    else {
        panic!("block 0 is there already");
    };
    assert_eq!((expected, found), (BlockNumber(1), BlockNumber(0)));
}

#[test]
fn a_contract_is_not_deployed_twice_in_a_block() {
    let mut tables = Tables::new();
    tables.deployed_contracts.upsert((felt(2), BlockNumber(0)), felt(9));
    let txn = StorageTxn::begin(tables);
    let diff = StateDiff { deployed_contracts: felts(&[(1, 50), (2, 51)]), ..empty_diff() };
    let StorageError::ContractAlreadyExists { address } = refusal(txn, 0, diff, IndexMap::new())
    else {
        panic!("the contract has a class in the block");
    };
    assert_eq!(address, felt(2));
}

#[test]
fn a_new_contract_has_no_nonce_yet() {
    let mut tables = Tables::new();
    tables.nonces.upsert((felt(2), BlockNumber(0)), felt(9));
    let txn = StorageTxn::begin(tables);
    let diff = StateDiff { deployed_contracts: felts(&[(1, 50), (2, 51)]), ..empty_diff() };
    let StorageError::NonceReWrite { contract_address, nonce, block_number } =
        refusal(txn, 0, diff, IndexMap::new())
    else {
        panic!("the contract has a nonce in the block");
    };
    assert_eq!((contract_address, nonce, block_number), (felt(2), felt(0), BlockNumber(0)));
}

#[test]
fn a_class_is_not_replaced_in_the_block_of_the_deployment() {
    let diff = StateDiff {
        deployed_contracts: felts(&[(1, 50)]),
        replaced_classes: felts(&[(1, 51)]),
        ..empty_diff()
    };
    assert!(matches!(
        refusal(begin(), 0, diff, IndexMap::new()),
        StorageError::InnerError(DbError::KeyExist)
    ));
}

#[test]
fn a_block_has_one_state_diff() {
    let (thin, _, _) = ThinStateDiff::from_state_diff(empty_diff());
    let mut tables = Tables::new();
    tables.state_diffs.upsert(BlockNumber(0), thin);
    assert!(matches!(
        refusal(StorageTxn::begin(tables), 0, empty_diff(), IndexMap::new()),
        StorageError::InnerError(DbError::KeyExist)
    ));
}

#[test]
fn a_class_is_declared_once() {
    let again = || StateDiff {
        declared_classes: IndexMap::from([
            (felt(64), (felt(164), class("sixty-four"))),
            (felt(60), (felt(160), class("sixty"))),
        ]),
        ..empty_diff()
    };
    let StorageError::ClassAlreadyExists { class_hash } =
        refusal(one_block(), 1, again(), IndexMap::new())
    else {
        panic!("the class is declared in block 0");
    };
    assert_eq!(class_hash, felt(60));
    // A block without a definition is enough.
    let mut tables = Tables::new();
    tables.declared_classes_block.upsert(felt(64), BlockNumber(0));
    let StorageError::ClassAlreadyExists { class_hash } =
        refusal(StorageTxn::begin(tables), 0, again(), IndexMap::new())
    else {
        panic!("the class has a block");
    };
    assert_eq!(class_hash, felt(64));
}

#[test]
fn a_deprecated_class_has_one_definition() {
    let other = StateDiff {
        deprecated_declared_classes: definitions(&[(50, "another")]),
        ..empty_diff()
    };
    let StorageError::ClassAlreadyExists { class_hash } =
        refusal(one_block(), 1, other, IndexMap::new())
    else {
        panic!("the class has another definition");
    };
    assert_eq!(class_hash, felt(50));
    let same =
        StateDiff { deprecated_declared_classes: definitions(&[(50, "fifty")]), ..empty_diff() };
    let txn = one_block().append_state_diff(BlockNumber(1), same, IndexMap::new()).unwrap();
    assert_eq!(deprecated_definition(&txn, 1, 50), Some(deprecated_class("fifty")));
}

#[test]
fn declared_definitions_count_and_come_by_hash() {
    // The class that the state diff declares is also given: the declared definition counts.
    let diff = StateDiff {
        deployed_contracts: felts(&[(1, 50)]),
        deprecated_declared_classes: definitions(&[(50, "declared")]),
        ..empty_diff()
    };
    let txn = begin()
        .append_state_diff(BlockNumber(0), diff, definitions(&[(50, "given")]))
        .unwrap();
    assert_eq!(deprecated_definition(&txn, 1, 50), Some(deprecated_class("declared")));
    // With classes of both kinds, the one with the smallest hash is met first.
    let diff = || StateDiff {
        deprecated_declared_classes: definitions(&[(50, "another")]),
        ..empty_diff()
    };
    let given = definitions(&[(51, "another"), (52, "fifty-two")]);
    let StorageError::ClassAlreadyExists { class_hash } = refusal(one_block(), 1, diff(), given)
    else {
        panic!("both classes have other definitions");
    };
    assert_eq!(class_hash, felt(50));
    // Given definitions alone come in their own order.
    let given = definitions(&[(51, "another"), (50, "another")]);
    let StorageError::ClassAlreadyExists { class_hash } =
        refusal(one_block(), 1, empty_diff(), given)
    else {
        panic!("both classes have other definitions");
    };
    assert_eq!(class_hash, felt(51));
}

#[test]
fn a_class_without_definition_is_an_inconsistency() {
    let mut tables = Tables::new();
    tables.declared_classes_block.upsert(felt(60), BlockNumber(3));
    let txn: StorageTxn<RW> = StorageTxn::begin(tables);
    let reader = txn.get_state_reader().unwrap();
    assert_eq!(reader.get_class_definition_at(state(3), &felt(60)).unwrap(), None);
    let Err(StorageError::DBInconsistency { msg }) =
        reader.get_class_definition_at(state(4), &felt(60))
    else {
        panic!("the class has no definition");
    };
    assert_eq!(
        msg,
        "block number found in declared_classes_block_table but contract class is not found in \
         declared_classes_table."
    );
}

#[test]
fn only_the_last_block_is_taken_back() {
    for block in [0, 2, 3] {
        let (txn, reverted) = two_blocks().revert_state_diff(BlockNumber(block)).unwrap();
        assert!(reverted.is_none());
        assert_eq!(txn.get_state_marker().unwrap(), BlockNumber(2));
        assert_eq!(class_hash(&txn, 2, 1), Some(felt(61)));
    }
    let (txn, reverted) = begin().revert_state_diff(BlockNumber(0)).unwrap();
    assert!(reverted.is_none());
    assert_eq!(txn.get_state_marker().unwrap(), BlockNumber(0));
}

#[test]
fn taking_back_a_block_returns_what_it_held() {
    let (_, (diff, classes, deprecated, casms)) = revert(two_blocks(), 1);
    assert_eq!(pairs(&diff.deployed_contracts), vec![(felt(3), felt(52))]);
    assert_eq!(pairs(&diff.nonces), vec![(felt(2), felt(9)), (felt(3), felt(1))]);
    assert_eq!(pairs(&diff.replaced_classes), vec![(felt(1), felt(61))]);
    assert_eq!(pairs(&diff.storage_diffs[&felt(1)]), vec![(felt(100), felt(8))]);
    assert_eq!(diff.deprecated_declared_classes, vec![felt(53), felt(50)]);
    assert_eq!(
        pairs(&diff.declared_classes),
        vec![(felt(63), felt(163)), (felt(61), felt(161)), (felt(62), felt(162))]
    );
    assert_eq!(
        pairs(&classes),
        vec![
            (felt(63), class("sixty-three")),
            (felt(61), class("sixty-one")),
            (felt(62), class("sixty-two")),
        ]
    );
    // The class of block 0 stays.
    assert_eq!(deprecated, definitions(&[(52, "fifty-two"), (53, "fifty-three")]));
    assert!(casms.is_empty());
}

#[test]
fn taking_back_a_block_undoes_it() {
    let (txn, _) = revert(two_blocks(), 1);
    assert_eq!(txn.get_state_marker().unwrap(), BlockNumber(1));
    let expected = one_block();
    let (tables, expected) = (txn.tables(), expected.tables());
    assert_eq!(tables.markers.rows(), expected.markers.rows());
    assert_eq!(tables.deployed_contracts.rows(), expected.deployed_contracts.rows());
    assert_eq!(tables.contract_storage.rows(), expected.contract_storage.rows());
    assert_eq!(tables.nonces.rows(), expected.nonces.rows());
    assert_eq!(tables.declared_classes.rows(), expected.declared_classes.rows());
    assert_eq!(tables.declared_classes_block.rows(), expected.declared_classes_block.rows());
    assert_eq!(tables.casms.rows().len(), 0);
    assert_eq!(tables.state_diffs.rows().len(), 1);
    let deprecated = |tables: &Tables| {
        let rows = tables.deprecated_declared_classes.rows().iter();
        rows.map(|(k, v)| (*k, v.block_number, v.contract_class.clone())).collect::<Vec<_>>()
    };
    assert_eq!(deprecated(tables), deprecated(expected));
    assert_eq!(
        deprecated(tables),
        vec![
            (felt(50), BlockNumber(0), deprecated_class("fifty")),
            (felt(51), BlockNumber(0), deprecated_class("fifty-one")),
        ]
    );
    // The same block can be added again, and read as before.
    let txn = txn
        .append_state_diff(BlockNumber(1), second_diff(), definitions(&[(52, "fifty-two")]))
        .unwrap();
    assert_eq!(class_hash(&txn, 2, 1), Some(felt(61)));
    assert_eq!(value(&txn, 2, 1, 100), felt(8));
}

#[test]
fn earlier_states_do_not_change() {
    let txn = one_block();
    let read = |txn: &StorageTxn<RW>| {
        (
            [class_hash(txn, 1, 1), class_hash(txn, 1, 2), class_hash(txn, 1, 3)],
            [nonce(txn, 1, 1), nonce(txn, 1, 2), nonce(txn, 1, 3)],
            [value(txn, 1, 1, 100), value(txn, 1, 1, 101), value(txn, 1, 2, 100)],
            [definition(txn, 1, 60), definition(txn, 1, 61)],
            [deprecated_definition(txn, 1, 50), deprecated_definition(txn, 1, 52)],
        )
    };
    let before = read(&txn);
    let txn = txn
        .append_state_diff(BlockNumber(1), second_diff(), definitions(&[(52, "fifty-two")]))
        .unwrap();
    assert_eq!(read(&txn), before);
    let (txn, _) = revert(txn, 1);
    assert_eq!(read(&txn), before);
}

#[test]
fn compiled_classes_are_taken_back_up_to_the_first_missing_one() {
    let mut tables = two_blocks().into_tables();
    tables.casms.upsert(felt(60), casm("c60"));
    tables.casms.upsert(felt(63), casm("c63"));
    tables.casms.upsert(felt(61), casm("c61"));
    tables.markers.upsert(MarkerKind::CompiledClass, BlockNumber(2));
    let (txn, (_, _, _, casms)) = revert(StorageTxn::begin(tables), 1);
    assert_eq!(pairs(&casms), vec![(felt(63), casm("c63")), (felt(61), casm("c61"))]);
    let tables = txn.into_tables();
    assert_eq!(tables.casms.rows(), &vec![(felt(60), casm("c60"))]);
    assert_eq!(tables.markers.get(&MarkerKind::CompiledClass), Some(&BlockNumber(1)));
    assert_eq!(tables.markers.get(&MarkerKind::State), Some(&BlockNumber(1)));
    // A marker that is behind stays, and so do the compiled classes behind a missing one.
    let mut tables = two_blocks().into_tables();
    tables.casms.upsert(felt(61), casm("c61"));
    tables.markers.upsert(MarkerKind::CompiledClass, BlockNumber(1));
    let (txn, (_, _, _, casms)) = revert(StorageTxn::begin(tables), 1);
    assert!(casms.is_empty());
    assert_eq!(txn.tables().casms.rows().len(), 1);
    assert_eq!(txn.tables().markers.get(&MarkerKind::CompiledClass), Some(&BlockNumber(1)));
}

#[test]
fn a_definition_that_the_block_does_not_name_stays() {
    let txn = begin()
        .append_state_diff(BlockNumber(0), empty_diff(), definitions(&[(70, "seventy")]))
        .unwrap();
    let (txn, (_, _, deprecated, _)) = revert(txn, 0);
    assert!(deprecated.is_empty());
    assert_eq!(deprecated_definition(&txn, 1, 70), Some(deprecated_class("seventy")));
}

#[test]
fn a_definition_that_no_block_names_is_no_obstacle() {
    let txn = begin()
        .append_state_diff(BlockNumber(0), first_diff(), definitions(&[(70, "seventy")]))
        .unwrap();
    // The last block can be taken back, and earlier states stay as they are.
    let txn = txn.append_state_diff(BlockNumber(1), second_diff(), IndexMap::new()).unwrap();
    let (txn, _) = revert(txn, 1);
    assert_eq!(value(&txn, 1, 1, 100), felt(5));
    assert_eq!(definition(&txn, 1, 60), Some(class("sixty")));
    assert_eq!(deprecated_definition(&txn, 1, 70), Some(deprecated_class("seventy")));
    let (txn, _) = revert(txn, 0);
    assert_eq!(txn.get_state_marker().unwrap(), BlockNumber(0));
    // What was taken back can be added again.
    let txn = txn
        .append_state_diff(BlockNumber(0), first_diff(), definitions(&[(70, "seventy")]))
        .unwrap();
    assert_eq!(class_hash(&txn, 5, 1), Some(felt(50)));
    assert_eq!(nonce(&txn, 5, 1), Some(felt(7)));
}
