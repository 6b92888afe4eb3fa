//! Field elements, and what they stand for.
use vstd::prelude::*;

verus! {

/// A Starknet field element: the upper and the lower sixteen bytes of its big-endian form.
pub type StarkFelt = (u128, u128);

/// The address of a contract.
pub type ContractAddress = StarkFelt;

/// The hash of a class.
pub type ClassHash = StarkFelt;

/// The hash of a compiled class.
pub type CompiledClassHash = StarkFelt;

/// The nonce of a contract.
pub type Nonce = StarkFelt;

/// A key in the storage of a contract.
pub type StorageKey = StarkFelt;

/// The hash of a transaction.
pub type TransactionHash = StarkFelt;

/// The zero element.
pub const ZERO: StarkFelt = (0u128, 0u128);

/// The order of field elements as numbers, which is the order of pairs of integers.
pub open spec fn felt_lt(a: StarkFelt, b: StarkFelt) -> bool {
    a.0 < b.0 || (a.0 == b.0 && a.1 < b.1)
}

/// Whether two field elements are the same.
pub fn felt_eq(a: &StarkFelt, b: &StarkFelt) -> (r: bool)
    ensures
        r == (*a == *b),
{
    a.0 == b.0 && a.1 == b.1
}

/// The zero element has two zero halves, and field elements are ordered by their upper halves
/// first.
pub proof fn law_felts_are_numbers(a: StarkFelt, b: StarkFelt)
    ensures
        ZERO == (0u128, 0u128),
        felt_lt(a, b) <==> a.0 * 0x1_0000_0000_0000_0000_0000_0000_0000_0000 + a.1 < b.0
            * 0x1_0000_0000_0000_0000_0000_0000_0000_0000 + b.1,
{
}

} // verus!
