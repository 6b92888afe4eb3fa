//! The changes of a block: the contracts that it deploys and the storage that it sets.
use vstd::prelude::*;

use crate::felt::{ClassHash, ContractAddress, StarkFelt, StorageKey};

verus! {

/// A contract that a block deploys.
#[derive(Debug, Clone, Copy, PartialEq, Eq)]
pub struct DeployedContract {
    pub address: ContractAddress,
    pub class_hash: ClassHash,
}

/// A value that a block sets.
#[derive(Debug, Clone, Copy, PartialEq, Eq)]
pub struct StorageEntry {
    pub key: StorageKey,
    pub value: StarkFelt,
}

/// The storage of a contract that a block sets.
#[derive(Debug, PartialEq, Eq)]
pub struct StorageDiff {
    pub address: ContractAddress,
    pub diff: Vec<StorageEntry>,
}

/// The changes of a block.
#[derive(Debug, PartialEq, Eq)]
pub struct StateDiffForward {
    pub deployed_contracts: Vec<DeployedContract>,
    pub storage_diffs: Vec<StorageDiff>,
}

/// The changes of a block, as sequences of pairs.
#[verifier::ext_equal]
pub ghost struct StateDiffForwardView {
    pub deployed_contracts: Seq<(ContractAddress, ClassHash)>,
    pub storage_diffs: Seq<(ContractAddress, Seq<(StorageKey, StarkFelt)>)>,
}

impl View for DeployedContract {
    type V = (ContractAddress, ClassHash);

    open spec fn view(&self) -> (ContractAddress, ClassHash) {
        (self.address, self.class_hash)
    }
}

impl View for StorageEntry {
    type V = (StorageKey, StarkFelt);

    open spec fn view(&self) -> (StorageKey, StarkFelt) {
        (self.key, self.value)
    }
}

impl View for StorageDiff {
    type V = (ContractAddress, Seq<(StorageKey, StarkFelt)>);

    open spec fn view(&self) -> (ContractAddress, Seq<(StorageKey, StarkFelt)>) {
        (self.address, self.diff@.map_values(|e: StorageEntry| e@))
    }
}

impl View for StateDiffForward {
    type V = StateDiffForwardView;

    open spec fn view(&self) -> StateDiffForwardView {
        StateDiffForwardView {
            deployed_contracts: self.deployed_contracts@.map_values(|c: DeployedContract| c@),
            storage_diffs: self.storage_diffs@.map_values(|d: StorageDiff| d@),
        }
    }
}

impl Clone for StorageDiff {
    fn clone(&self) -> (r: Self)
        ensures
            r@ == self@,
    {
        let mut diff: Vec<StorageEntry> = Vec::new();
        let mut i: usize = 0;
        while i < self.diff.len()
            invariant
                i <= self.diff.len(),
                diff@ == self.diff@.take(i as int),
            decreases self.diff.len() - i,
        {
            diff.push(self.diff[i]);
            i += 1;
            assert(diff@ =~= self.diff@.take(i as int));
        }
        assert(diff@ =~= self.diff@);
        StorageDiff { address: self.address, diff }
    }
}

impl Clone for StateDiffForward {
    fn clone(&self) -> (r: Self)
        ensures
            r@ == self@,
    {
        let mut deployed_contracts: Vec<DeployedContract> = Vec::new();
        let mut i: usize = 0;
        while i < self.deployed_contracts.len()
            invariant
                i <= self.deployed_contracts.len(),
                deployed_contracts@ == self.deployed_contracts@.take(i as int),
            decreases self.deployed_contracts.len() - i,
        {
            deployed_contracts.push(self.deployed_contracts[i]);
            i += 1;
            assert(deployed_contracts@ =~= self.deployed_contracts@.take(i as int));
        }
        assert(deployed_contracts@ =~= self.deployed_contracts@);
        let mut storage_diffs: Vec<StorageDiff> = Vec::new();
        let mut j: usize = 0;
        while j < self.storage_diffs.len()
            invariant
                j <= self.storage_diffs.len(),
                storage_diffs.len() == j,
                forall|k: int| 0 <= k < j ==> (#[trigger] storage_diffs@[k])@ == self.storage_diffs@[k]@,
            decreases self.storage_diffs.len() - j,
        {
            storage_diffs.push(self.storage_diffs[j].clone());
            j += 1;
        }
        let r = StateDiffForward { deployed_contracts, storage_diffs };
        assert(r@.storage_diffs =~= self@.storage_diffs);
        r
    }
}

} // verus!
