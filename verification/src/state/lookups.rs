//! What a reader answers, told from the rows of the tables.
use vstd::prelude::*;

use crate::block::{BlockNumber, StateNumber};
use crate::felt::{ClassHash, ContractAddress, StorageKey};
use crate::storage::StateView;

use super::model::ReaderView;
#[allow(unused_imports)]
use super::model::{history_of, storage_history_of};
#[allow(unused_imports)]
use super::reader::{lemma_latest_is, lemma_latest_none};

verus! {

/// A contract without a row in a block before the state has no class there. Else its class is that
/// of its last row before the state.
pub proof fn law_class_hash_is_latest(
    r: ReaderView,
    state: StateNumber,
    address: ContractAddress,
    b: BlockNumber,
)
    ensures
        (forall|c: BlockNumber|
            c.0 < state.0.0 ==> !#[trigger] r.deployed_contracts.contains_key((address, c)))
            ==> r.class_hash_at(state, address) is None,
        r.deployed_contracts.contains_key((address, b)) && b.0 < state.0.0 && (forall|
            c: BlockNumber,
        |
            b.0 < c.0 < state.0.0 ==> !#[trigger] r.deployed_contracts.contains_key((address, c)))
            ==> r.class_hash_at(state, address) == Some(r.deployed_contracts[(address, b)]),
{
    let history = history_of(r.deployed_contracts, address);
    if forall|c: BlockNumber|
        c.0 < state.0.0 ==> !#[trigger] r.deployed_contracts.contains_key((address, c)) {
        lemma_latest_none(history, state.0.0 as nat);
    }
    if r.deployed_contracts.contains_key((address, b)) && b.0 < state.0.0 && (forall|
        c: BlockNumber,
    |
        b.0 < c.0 < state.0.0 ==> !#[trigger] r.deployed_contracts.contains_key((address, c))) {
        lemma_latest_is(history, b, state.0.0 as nat);
    }
}

/// A contract without a row in a block before the state has no nonce there. Else its nonce is that
/// of its last row before the state.
pub proof fn law_nonce_is_latest(
    r: ReaderView,
    state: StateNumber,
    address: ContractAddress,
    b: BlockNumber,
)
    ensures
        (forall|c: BlockNumber| c.0 < state.0.0 ==> !#[trigger] r.nonces.contains_key((address, c)))
            ==> r.nonce_at(state, address) is None,
        r.nonces.contains_key((address, b)) && b.0 < state.0.0 && (forall|c: BlockNumber|
            b.0 < c.0 < state.0.0 ==> !#[trigger] r.nonces.contains_key((address, c)))
            ==> r.nonce_at(state, address) == Some(r.nonces[(address, b)]),
{
    let history = history_of(r.nonces, address);
    if forall|c: BlockNumber|
        c.0 < state.0.0 ==> !#[trigger] r.nonces.contains_key((address, c)) {
        lemma_latest_none(history, state.0.0 as nat);
    }
    if r.nonces.contains_key((address, b)) && b.0 < state.0.0 && (forall|c: BlockNumber|
        b.0 < c.0 < state.0.0 ==> !#[trigger] r.nonces.contains_key((address, c))) {
        lemma_latest_is(history, b, state.0.0 as nat);
    }
}

/// A storage key of a contract without a row in a block before the state reads as zero, whatever
/// the contract and the key. Else it reads as its last row before the state says.
pub proof fn law_storage_is_latest(
    r: ReaderView,
    state: StateNumber,
    address: ContractAddress,
    key: StorageKey,
    b: BlockNumber,
)
    ensures
        (forall|c: BlockNumber|
            c.0 < state.0.0 ==> !#[trigger] r.contract_storage.contains_key((address, key, c)))
            ==> r.storage_at(state, address, key) == (0u128, 0u128),
        r.contract_storage.contains_key((address, key, b)) && b.0 < state.0.0 && (forall|
            c: BlockNumber,
        |
            b.0 < c.0 < state.0.0 ==> !#[trigger] r.contract_storage.contains_key(
                (address, key, c),
            )) ==> r.storage_at(state, address, key) == r.contract_storage[(address, key, b)],
{
    let history = storage_history_of(r.contract_storage, address, key);
    if forall|c: BlockNumber|
        c.0 < state.0.0 ==> !#[trigger] r.contract_storage.contains_key((address, key, c)) {
        lemma_latest_none(history, state.0.0 as nat);
    }
    if r.contract_storage.contains_key((address, key, b)) && b.0 < state.0.0 && (forall|
        c: BlockNumber,
    |
        b.0 < c.0 < state.0.0 ==> !#[trigger] r.contract_storage.contains_key((address, key, c))) {
        lemma_latest_is(history, b, state.0.0 as nat);
    }
}

/// A Cairo 1 class is declared in the states behind the block of its row. A Cairo 0 class has the
/// definition of its row in the states behind the block of its row, and in no other.
pub proof fn law_classes_from_their_block_on(
    r: ReaderView,
    state: StateNumber,
    class_hash: ClassHash,
)
    ensures
        r.class_declared_at(state, class_hash) <==> r.declared_classes_block.contains_key(
            class_hash,
        ) && r.declared_classes_block[class_hash].0 < state.0.0,
        r.deprecated_class_at(state, class_hash) is Some
            <==> r.deprecated_declared_classes.contains_key(class_hash)
            && r.deprecated_declared_classes[class_hash].block_number.0 < state.0.0,
        r.deprecated_class_at(state, class_hash) matches Some(class) ==> class
            == r.deprecated_declared_classes[class_hash].contract_class,
{
}

/// A reader looks at the tables of the state, each in its own place.
pub proof fn law_readers_see_the_tables(s: StateView)
    ensures
        s.readable().declared_classes == s.declared_classes,
        s.readable().declared_classes_block == s.declared_classes_block,
        s.readable().deprecated_declared_classes == s.deprecated_declared_classes,
        s.readable().deployed_contracts == s.deployed_contracts,
        s.readable().contract_storage == s.contract_storage,
        s.readable().nonces == s.nonces,
{
}

/// In the empty state every storage key reads as zero, and there are no contracts, nonces or
/// classes.
pub proof fn law_empty_state_reads(
    state: StateNumber,
    address: ContractAddress,
    key: StorageKey,
    class_hash: ClassHash,
)
    ensures
        ({
            let r = StateView::empty().readable();
            &&& r.storage_at(state, address, key) == (0u128, 0u128)
            &&& r.class_hash_at(state, address) is None
            &&& r.nonce_at(state, address) is None
            &&& !r.class_declared_at(state, class_hash)
            &&& r.deprecated_class_at(state, class_hash) is None
        }),
{
    let r = StateView::empty().readable();
    law_class_hash_is_latest(r, state, address, BlockNumber(0));
    law_nonce_is_latest(r, state, address, BlockNumber(0));
    law_storage_is_latest(r, state, address, key, BlockNumber(0));
}

} // verus!
