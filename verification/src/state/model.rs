//! What the operations on the state mean, over maps and sequences.
use vstd::prelude::*;

use cairo_lang_starknet::casm_contract_class::CasmContractClass;
use starknet_api::deprecated_contract_class::ContractClass as DeprecatedContractClass;
use starknet_api::state::ContractClass;

use crate::block::{BlockNumber, StateNumber};
#[allow(unused_imports)]
use crate::classes::same_definition;
use crate::classes::IndexedDeprecatedContractClass;
use crate::db::DbError;
use crate::felt::{ClassHash, ContractAddress, Nonce, StarkFelt, StorageKey, ZERO};
#[allow(unused_imports)]
use crate::index_map::{has_key, increasing_keys, insert_entries, value_of};
use crate::state_diff::{StateDiffView, ThinStateDiffView};
use crate::storage::{MarkerKind, StateView, StorageError};

verus! {

/// The value of the latest block before block `bound`.
pub open spec fn latest<V>(history: Map<BlockNumber, V>, bound: nat) -> Option<V>
    decreases bound,
{
    if bound == 0 {
        None
    } else if history.contains_key(BlockNumber((bound - 1) as u64)) {
        Some(history[BlockNumber((bound - 1) as u64)])
    } else {
        latest(history, (bound - 1) as nat)
    }
}

/// Whether the history has no value at block `b` or later.
pub open spec fn ends_before<V>(history: Map<BlockNumber, V>, b: BlockNumber) -> bool {
    forall|c: BlockNumber| #[trigger] history.contains_key(c) ==> c.0 < b.0
}

/// What the rows say of the key, block by block.
pub open spec fn history_of<V>(rows: Map<(StarkFelt, BlockNumber), V>, k: StarkFelt) -> Map<
    BlockNumber,
    V,
> {
    Map::new(|b: BlockNumber| rows.contains_key((k, b)), |b: BlockNumber| rows[(k, b)])
}

/// What the rows say of the storage key of the contract, block by block.
pub open spec fn storage_history_of(
    rows: Map<(ContractAddress, StorageKey, BlockNumber), StarkFelt>,
    address: ContractAddress,
    key: StorageKey,
) -> Map<BlockNumber, StarkFelt> {
    Map::new(
        |b: BlockNumber| rows.contains_key((address, key, b)),
        |b: BlockNumber| rows[(address, key, b)],
    )
}

/// The value of the storage key of the contract in the state: zero where it never got one.
pub open spec fn storage_value_at(
    rows: Map<(ContractAddress, StorageKey, BlockNumber), StarkFelt>,
    state: StateNumber,
    address: ContractAddress,
    key: StorageKey,
) -> StarkFelt {
    match latest(storage_history_of(rows, address, key), state.0.0 as nat) {
        Some(value) => value,
        None => ZERO,
    }
}

/// The pairs as a map.
pub open spec fn entries_map<P>(s: Seq<(StarkFelt, P)>) -> Map<StarkFelt, P> {
    Map::new(|k: StarkFelt| has_key(s, k), |k: StarkFelt| value_of(s, k))
}

/// The rows that give each key its value from block `b` on.
pub open spec fn rows_at<P>(s: Seq<(StarkFelt, P)>, b: BlockNumber) -> Map<
    (StarkFelt, BlockNumber),
    P,
> {
    Map::new(
        |k: (StarkFelt, BlockNumber)| k.1 == b && has_key(s, k.0),
        |k: (StarkFelt, BlockNumber)| value_of(s, k.0),
    )
}

/// The rows that give each storage key of each contract its value from block `b` on.
pub open spec fn storage_rows_at(
    s: Seq<(ContractAddress, Seq<(StorageKey, StarkFelt)>)>,
    b: BlockNumber,
) -> Map<(ContractAddress, StorageKey, BlockNumber), StarkFelt> {
    Map::new(
        |k: (ContractAddress, StorageKey, BlockNumber)|
            k.2 == b && has_key(s, k.0) && has_key(value_of(s, k.0), k.1),
        |k: (ContractAddress, StorageKey, BlockNumber)| value_of(value_of(s, k.0), k.1),
    )
}

/// The pairs with the same value for each key.
pub open spec fn with_value<P, Q>(s: Seq<(StarkFelt, P)>, v: Q) -> Seq<(StarkFelt, Q)> {
    s.map_values(|e: (StarkFelt, P)| (e.0, v))
}

/// The rows that note the definitions as declared in block `b`.
pub open spec fn indexed_classes(
    s: Seq<(ClassHash, DeprecatedContractClass)>,
    b: BlockNumber,
) -> Map<ClassHash, IndexedDeprecatedContractClass> {
    Map::new(
        |k: ClassHash| has_key(s, k),
        |k: ClassHash|
            IndexedDeprecatedContractClass { block_number: b, contract_class: value_of(s, k) },
    )
}

/// How many of the first pairs have their keys in the map.
pub open spec fn leading<P, Q>(s: Seq<(StarkFelt, P)>, m: Map<StarkFelt, Q>) -> nat
    decreases s.len(),
{
    if s.len() > 0 && m.contains_key(s[0].0) {
        1 + leading(s.drop_first(), m)
    } else {
        0
    }
}

/// The pairs with the values that the map has for their keys.
pub open spec fn with_values_of<P, Q>(s: Seq<(StarkFelt, P)>, m: Map<StarkFelt, Q>) -> Seq<
    (StarkFelt, Q),
> {
    s.map_values(|e: (StarkFelt, P)| (e.0, m[e.0]))
}

/// The hashes of the Cairo 0 classes that the block of the state diff can have brought: of those
/// that it declares, and of its deployed contracts.
pub open spec fn candidate_classes(diff: ThinStateDiffView) -> Seq<ClassHash> {
    diff.deprecated_declared_classes + diff.deployed_contracts.map_values(
        |e: (ContractAddress, ClassHash)| e.1,
    )
}

/// Those of the classes that are stored as declared in block `b`.
pub open spec fn classes_of_block(
    classes: Map<ClassHash, IndexedDeprecatedContractClass>,
    hashes: Seq<ClassHash>,
    b: BlockNumber,
) -> Map<ClassHash, DeprecatedContractClass> {
    Map::new(
        |h: ClassHash|
            hashes.contains(h) && classes.contains_key(h) && classes[h].block_number == b,
        |h: ClassHash| classes[h].contract_class,
    )
}

/// The error of the first element that has one.
pub open spec fn first_error<T>(s: Seq<T>, f: spec_fn(T) -> Option<StorageError>) -> Option<
    StorageError,
>
    decreases s.len(),
{
    if s.len() == 0 {
        None
    } else {
        match first_error(s.drop_last(), f) {
            Some(e) => Some(e),
            None => f(s.last()),
        }
    }
}

/// Whether the element at position `j` is the first one that has an error.
pub open spec fn refused_at<T>(s: Seq<T>, f: spec_fn(T) -> Option<StorageError>, j: int) -> bool {
    &&& 0 <= j < s.len()
    &&& first_error(s.take(j), f) is None
    &&& f(s[j]) is Some
}

/// The same pairs by increasing keys.
pub open spec fn by_key<P>(s: Seq<(StarkFelt, P)>) -> Seq<(StarkFelt, P)> {
    choose|t: Seq<(StarkFelt, P)>| increasing_keys(t) && #[trigger] t.to_multiset() == s.to_multiset()
}

/// The Cairo 0 definitions that a block brings: those of its deployed contracts, and those that it
/// declares. Where there are some of both kinds, they come by increasing class hash, and for a
/// hash of both kinds the declared definition counts.
pub open spec fn deprecated_classes(
    deployed_definitions: Seq<(ClassHash, DeprecatedContractClass)>,
    declared: Seq<(ClassHash, DeprecatedContractClass)>,
) -> Seq<(ClassHash, DeprecatedContractClass)> {
    if deployed_definitions.len() == 0 {
        declared
    } else if declared.len() == 0 {
        deployed_definitions
    } else {
        by_key(insert_entries(deployed_definitions, declared))
    }
}

/// The marker of a kind: the first block that is not there yet.
pub open spec fn marker_in(markers: Map<MarkerKind, BlockNumber>, kind: MarkerKind) -> BlockNumber {
    if markers.contains_key(kind) {
        markers[kind]
    } else {
        BlockNumber(0)
    }
}

/// Why the contract cannot be deployed in block `b`.
pub open spec fn deploy_error(
    deployed_contracts: Map<(ContractAddress, BlockNumber), ClassHash>,
    nonces: Map<(ContractAddress, BlockNumber), Nonce>,
    address: ContractAddress,
    b: BlockNumber,
) -> Option<StorageError> {
    if deployed_contracts.contains_key((address, b)) {
        Some(StorageError::ContractAlreadyExists { address })
    } else if nonces.contains_key((address, b)) {
        Some(
            StorageError::NonceReWrite { contract_address: address, nonce: ZERO, block_number: b },
        )
    } else {
        None
    }
}

/// Why a Cairo 1 class cannot be declared.
pub open spec fn declare_error(
    declared_classes: Map<ClassHash, ContractClass>,
    declared_classes_block: Map<ClassHash, BlockNumber>,
    class_hash: ClassHash,
) -> Option<StorageError> {
    if declared_classes.contains_key(class_hash) || declared_classes_block.contains_key(
        class_hash,
    ) {
        Some(StorageError::ClassAlreadyExists { class_hash })
    } else {
        None
    }
}

/// Why a Cairo 0 class cannot be declared: it is stored with another definition.
pub open spec fn declare_deprecated_error(
    deprecated_declared_classes: Map<ClassHash, IndexedDeprecatedContractClass>,
    class_hash: ClassHash,
    class: DeprecatedContractClass,
) -> Option<StorageError> {
    if deprecated_declared_classes.contains_key(class_hash)
        && !same_definition(deprecated_declared_classes[class_hash].contract_class, class) {
        Some(StorageError::ClassAlreadyExists { class_hash })
    } else {
        None
    }
}

/// Why the class of the contract cannot be replaced in block `b`: it got one in the same block.
pub open spec fn replace_error(
    deployed_contracts: Map<(ContractAddress, BlockNumber), ClassHash>,
    address: ContractAddress,
    b: BlockNumber,
) -> Option<StorageError> {
    if deployed_contracts.contains_key((address, b)) {
        Some(StorageError::InnerError(DbError::KeyExist))
    } else {
        None
    }
}

/// The tables that a reader of the state looks at.
#[verifier::ext_equal]
pub ghost struct ReaderView {
    pub declared_classes: Map<ClassHash, ContractClass>,
    pub declared_classes_block: Map<ClassHash, BlockNumber>,
    pub deprecated_declared_classes: Map<ClassHash, IndexedDeprecatedContractClass>,
    pub deployed_contracts: Map<(ContractAddress, BlockNumber), ClassHash>,
    pub contract_storage: Map<(ContractAddress, StorageKey, BlockNumber), StarkFelt>,
    pub nonces: Map<(ContractAddress, BlockNumber), Nonce>,
}

impl ReaderView {
    /// The class of the contract in the state.
    pub open spec fn class_hash_at(self, state: StateNumber, address: ContractAddress) -> Option<
        ClassHash,
    > {
        latest(history_of(self.deployed_contracts, address), state.0.0 as nat)
    }

    /// The nonce of the contract in the state.
    pub open spec fn nonce_at(self, state: StateNumber, address: ContractAddress) -> Option<Nonce> {
        latest(history_of(self.nonces, address), state.0.0 as nat)
    }

    /// The value of the storage key of the contract in the state: zero where it never got one.
    pub open spec fn storage_at(
        self,
        state: StateNumber,
        address: ContractAddress,
        key: StorageKey,
    ) -> StarkFelt {
        storage_value_at(self.contract_storage, state, address, key)
    }

    /// Whether the Cairo 1 class is declared in the state.
    pub open spec fn class_declared_at(self, state: StateNumber, class_hash: ClassHash) -> bool {
        self.declared_classes_block.contains_key(class_hash) && state.covers(
            self.declared_classes_block[class_hash],
        )
    }

    /// The definition of the Cairo 0 class in the state.
    pub open spec fn deprecated_class_at(self, state: StateNumber, class_hash: ClassHash) -> Option<
        DeprecatedContractClass,
    > {
        if self.deprecated_declared_classes.contains_key(class_hash) && state.covers(
            self.deprecated_declared_classes[class_hash].block_number,
        ) {
            Some(self.deprecated_declared_classes[class_hash].contract_class)
        } else {
            None
        }
    }
}

impl StateView {
    /// What a reader of the state looks at.
    pub open spec fn readable(self) -> ReaderView {
        ReaderView {
            declared_classes: self.declared_classes,
            declared_classes_block: self.declared_classes_block,
            deprecated_declared_classes: self.deprecated_declared_classes,
            deployed_contracts: self.deployed_contracts,
            contract_storage: self.contract_storage,
            nonces: self.nonces,
        }
    }

    /// The marker of a kind: the first block that is not there yet.
    pub open spec fn marker(self, kind: MarkerKind) -> BlockNumber {
        marker_in(self.markers, kind)
    }

    /// The first thing that stands against the state diff `diff` of block `b`, if any: the block
    /// is not the next one; a contract is deployed, or has a nonce, in the block already; a
    /// replaced class meets a class that the contract got in the same block; the block has a state
    /// diff already; a class is declared already; a Cairo 0 class has another definition already.
    pub open spec fn append_error(
        self,
        b: BlockNumber,
        diff: StateDiffView,
        deployed_definitions: Seq<(ClassHash, DeprecatedContractClass)>,
    ) -> Option<StorageError> {
        let marker = self.marker(MarkerKind::State);
        let deploy = first_error(
            diff.deployed_contracts,
            |e: (ContractAddress, ClassHash)|
                deploy_error(self.deployed_contracts, self.nonces, e.0, b),
        );
        let replace = first_error(
            diff.replaced_classes,
            |e: (ContractAddress, ClassHash)|
                replace_error(
                    self.deployed_contracts.union_prefer_right(rows_at(diff.deployed_contracts, b)),
                    e.0,
                    b,
                ),
        );
        let declare = first_error(
            diff.class_definitions(),
            |e: (ClassHash, ContractClass)|
                declare_error(self.declared_classes, self.declared_classes_block, e.0),
        );
        let declare_deprecated = first_error(
            deprecated_classes(deployed_definitions, diff.deprecated_declared_classes),
            |e: (ClassHash, DeprecatedContractClass)|
                declare_deprecated_error(self.deprecated_declared_classes, e.0, e.1),
        );
        if marker != b {
            Some(StorageError::MarkerMismatch { expected: marker, found: b })
        } else if deploy is Some {
            deploy
        } else if replace is Some {
            replace
        } else if self.state_diffs.contains_key(b) {
            Some(StorageError::InnerError(DbError::KeyExist))
        } else if declare is Some {
            declare
        } else {
            declare_deprecated
        }
    }

    /// The state after the state diff `diff` of block `b`.
    pub open spec fn append(
        self,
        b: BlockNumber,
        diff: StateDiffView,
        deployed_definitions: Seq<(ClassHash, DeprecatedContractClass)>,
    ) -> StateView {
        StateView {
            markers: self.markers.insert(MarkerKind::State, BlockNumber((b.0 + 1) as u64)),
            deployed_contracts: self.deployed_contracts.union_prefer_right(
                rows_at(diff.deployed_contracts, b),
            ).union_prefer_right(rows_at(diff.replaced_classes, b)),
            nonces: self.nonces.union_prefer_right(
                rows_at(with_value(diff.deployed_contracts, ZERO), b),
            ).union_prefer_right(rows_at(diff.nonces, b)),
            contract_storage: self.contract_storage.union_prefer_right(
                storage_rows_at(diff.storage_diffs, b),
            ),
            state_diffs: self.state_diffs.insert(b, diff.thin()),
            declared_classes: self.declared_classes.union_prefer_right(
                entries_map(diff.class_definitions()),
            ),
            declared_classes_block: self.declared_classes_block.union_prefer_right(
                entries_map(with_value(diff.declared_classes, b)),
            ),
            deprecated_declared_classes: indexed_classes(
                deprecated_classes(deployed_definitions, diff.deprecated_declared_classes),
                b,
            ).union_prefer_right(self.deprecated_declared_classes),
            casms: self.casms,
        }
    }

    /// Whether the state diff of block `b` can be taken back: the block is the last one.
    pub open spec fn is_last(self, b: BlockNumber) -> bool {
        self.marker(MarkerKind::State).0 == b.0 + 1
    }

    /// Whether the tables hold what block `b` brought, as far as taking it back needs it: its
    /// state diff and the definitions of its declared classes.
    pub open spec fn has_block(self, b: BlockNumber) -> bool {
        &&& self.state_diffs.contains_key(b)
        &&& forall|i: int|
            0 <= i < self.state_diffs[b].declared_classes.len() ==> self.declared_classes.contains_key(
                (#[trigger] self.state_diffs[b].declared_classes[i]).0,
            )
    }

    /// The markers after taking back block `b`.
    pub open spec fn reverted_markers(self, b: BlockNumber) -> Map<MarkerKind, BlockNumber> {
        if self.marker(MarkerKind::CompiledClass).0 == b.0 + 1 {
            self.markers.insert(MarkerKind::State, b).insert(MarkerKind::CompiledClass, b)
        } else {
            self.markers.insert(MarkerKind::State, b)
        }
    }

    /// The state after taking back block `b`.
    pub open spec fn revert(self, b: BlockNumber) -> StateView {
        let diff = self.state_diffs[b];
        let compiled = diff.declared_classes.take(
            leading(diff.declared_classes, self.casms) as int,
        );
        StateView {
            markers: self.reverted_markers(b),
            declared_classes: self.declared_classes.remove_keys(
                entries_map(diff.declared_classes).dom(),
            ),
            declared_classes_block: self.declared_classes_block.remove_keys(
                entries_map(diff.declared_classes).dom(),
            ),
            deprecated_declared_classes: self.deprecated_declared_classes.remove_keys(
                classes_of_block(
                    self.deprecated_declared_classes,
                    candidate_classes(diff),
                    b,
                ).dom(),
            ),
            casms: self.casms.remove_keys(entries_map(compiled).dom()),
            deployed_contracts: self.deployed_contracts.remove_keys(
                rows_at(diff.deployed_contracts, b).dom(),
            ).remove_keys(rows_at(diff.replaced_classes, b).dom()),
            contract_storage: self.contract_storage.remove_keys(
                storage_rows_at(diff.storage_diffs, b).dom(),
            ),
            nonces: self.nonces.remove_keys(rows_at(diff.deployed_contracts, b).dom()).remove_keys(
                rows_at(diff.nonces, b).dom(),
            ),
            state_diffs: self.state_diffs.remove(b),
        }
    }

    /// The definitions that taking back block `b` removes: of the Cairo 1 classes.
    pub open spec fn reverted_classes(self, b: BlockNumber) -> Seq<(ClassHash, ContractClass)> {
        with_values_of(self.state_diffs[b].declared_classes, self.declared_classes)
    }

    /// The definitions that taking back block `b` removes: of the Cairo 0 classes.
    pub open spec fn reverted_deprecated_classes(self, b: BlockNumber) -> Map<
        ClassHash,
        DeprecatedContractClass,
    > {
        classes_of_block(
            self.deprecated_declared_classes,
            candidate_classes(self.state_diffs[b]),
            b,
        )
    }

    /// The compiled classes that taking back block `b` removes: up to the first declared class
    /// that has none.
    pub open spec fn reverted_casms(self, b: BlockNumber) -> Seq<(ClassHash, CasmContractClass)> {
        let declared = self.state_diffs[b].declared_classes;
        with_values_of(declared.take(leading(declared, self.casms) as int), self.casms)
    }
}

} // verus!
