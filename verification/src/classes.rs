//! Class definitions. They are carried through the state as they are: nothing here looks inside
//! one.
use vstd::prelude::*;

use starknet_api::deprecated_contract_class::ContractClass as DeprecatedContractClass;
use vstd::std_specs::cmp::PartialEqSpec;

use crate::block::BlockNumber;

verus! {

/// The definition of a Cairo 1 class, from `starknet_api`.
#[verifier::external_type_specification]
#[verifier::external_body]
pub struct ExContractClass(starknet_api::state::ContractClass);

/// The definition of a Cairo 0 class, from `starknet_api`.
#[verifier::external_type_specification]
#[verifier::external_body]
pub struct ExDeprecatedContractClass(starknet_api::deprecated_contract_class::ContractClass);

/// A compiled Cairo 1 class, from `cairo_lang_starknet`.
#[verifier::external_type_specification]
#[verifier::external_body]
pub struct ExCasmContractClass(cairo_lang_starknet::casm_contract_class::CasmContractClass);

/// `Clone::clone` of `starknet_api::state::ContractClass`, which is derived: the clone is the same
/// definition.
pub assume_specification[ <starknet_api::state::ContractClass as Clone>::clone ](
    class: &starknet_api::state::ContractClass,
) -> (r: starknet_api::state::ContractClass)
    ensures
        r == *class,
;

/// `Clone::clone` of `starknet_api::deprecated_contract_class::ContractClass`, which is derived:
/// the clone is the same definition.
pub assume_specification[ <starknet_api::deprecated_contract_class::ContractClass as Clone>::clone ](
    class: &starknet_api::deprecated_contract_class::ContractClass,
) -> (r: starknet_api::deprecated_contract_class::ContractClass)
    ensures
        r == *class,
;

/// `Clone::clone` of `cairo_lang_starknet::casm_contract_class::CasmContractClass`, which is
/// derived: the clone is the same class.
pub assume_specification[ <cairo_lang_starknet::casm_contract_class::CasmContractClass as Clone>::clone ](
    class: &cairo_lang_starknet::casm_contract_class::CasmContractClass,
) -> (r: cairo_lang_starknet::casm_contract_class::CasmContractClass)
    ensures
        r == *class,
;

/// Whether two Cairo 0 definitions count as the same: they are, or `==` takes them for it.
pub open spec fn same_definition(
    class: DeprecatedContractClass,
    other: DeprecatedContractClass,
) -> bool {
    class == other || class.eq_spec(&other)
}

/// `PartialEq::eq` of `starknet_api::deprecated_contract_class::ContractClass`, which is derived:
/// what it answers depends on the two definitions alone, and a definition equals itself.
#[verifier::external_body]
pub(crate) fn same_deprecated_class(
    class: &DeprecatedContractClass,
    other: &DeprecatedContractClass,
) -> (r: bool)
    ensures
        r == same_definition(*class, *other),
{
    class == other
}

/// A Cairo 0 class definition and the block that declared it.
pub struct IndexedDeprecatedContractClass {
    pub block_number: BlockNumber,
    pub contract_class: DeprecatedContractClass,
}

} // verus!
