//! Answers to requests on transactions.
use vstd::prelude::*;

use crate::felt::{StarkFelt, TransactionHash, ZERO};

verus! {

/// The estimated fee of a transaction.
#[derive(Debug, PartialEq, Eq)]
pub struct FeeEstimate {
    pub overall_fee: u128,
    pub gas_price: u128,
    pub gas_usage: u128,
    pub unit: String,
}

/// What the answer to any added transaction holds.
#[derive(Debug, PartialEq, Eq)]
pub struct CommonTransactionFieldsResult {
    pub code: String,
    pub transaction_hash: TransactionHash,
}

/// The answer to an added invoke transaction.
#[derive(Debug, PartialEq, Eq)]
pub struct InvokeTransactionResult {
    pub common_fields: CommonTransactionFieldsResult,
}

/// The answer to an added declare transaction.
#[derive(Debug, PartialEq, Eq)]
pub struct DeclareTransactionResult {
    pub common_fields: CommonTransactionFieldsResult,
    pub class_hash: StarkFelt,
}

/// The answer to an added deploy transaction.
#[derive(Debug, PartialEq, Eq)]
pub struct DeployTransactionResult {
    pub common_fields: CommonTransactionFieldsResult,
    pub address: StarkFelt,
}

/// The answer to an added transaction.
#[derive(Debug, PartialEq, Eq)]
pub enum AddTransactionResult {
    Declare(DeclareTransactionResult),
    Deploy(DeployTransactionResult),
    Invoke(InvokeTransactionResult),
}

impl Clone for FeeEstimate {
    fn clone(&self) -> (r: Self)
        ensures
            r == *self,
    {
        FeeEstimate {
            overall_fee: self.overall_fee,
            gas_price: self.gas_price,
            gas_usage: self.gas_usage,
            unit: self.unit.clone(),
        }
    }
}

impl Clone for CommonTransactionFieldsResult {
    fn clone(&self) -> (r: Self)
        ensures
            r == *self,
    {
        CommonTransactionFieldsResult {
            code: self.code.clone(),
            transaction_hash: self.transaction_hash,
        }
    }
}

impl Clone for InvokeTransactionResult {
    fn clone(&self) -> (r: Self)
        ensures
            r == *self,
    {
        InvokeTransactionResult { common_fields: self.common_fields.clone() }
    }
}

impl Clone for DeclareTransactionResult {
    fn clone(&self) -> (r: Self)
        ensures
            r == *self,
    {
        DeclareTransactionResult {
            common_fields: self.common_fields.clone(),
            class_hash: self.class_hash,
        }
    }
}

impl Clone for DeployTransactionResult {
    fn clone(&self) -> (r: Self)
        ensures
            r == *self,
    {
        DeployTransactionResult {
            common_fields: self.common_fields.clone(),
            address: self.address,
        }
    }
}

impl Clone for AddTransactionResult {
    fn clone(&self) -> (r: Self)
        ensures
            r == *self,
    {
        match self {
            AddTransactionResult::Declare(result) => AddTransactionResult::Declare(result.clone()),
            AddTransactionResult::Deploy(result) => AddTransactionResult::Deploy(result.clone()),
            AddTransactionResult::Invoke(result) => AddTransactionResult::Invoke(result.clone()),
        }
    }
}

impl Default for FeeEstimate {
    /// No fee, in no unit.
    fn default() -> (r: Self)
        ensures
            r.overall_fee == 0,
            r.gas_price == 0,
            r.gas_usage == 0,
            r.unit@ == Seq::<char>::empty(),
    {
        FeeEstimate { overall_fee: 0, gas_price: 0, gas_usage: 0, unit: String::new() }
    }
}

impl Default for CommonTransactionFieldsResult {
    /// No code, and the transaction with hash zero.
    fn default() -> (r: Self)
        ensures
            r.code@ == Seq::<char>::empty(),
            r.transaction_hash == (0u128, 0u128),
    {
        CommonTransactionFieldsResult { code: String::new(), transaction_hash: ZERO }
    }
}

impl Default for InvokeTransactionResult {
    /// The default common fields.
    fn default() -> (r: Self)
        ensures
            r.common_fields.code@ == Seq::<char>::empty(),
            r.common_fields.transaction_hash == (0u128, 0u128),
    {
        InvokeTransactionResult { common_fields: CommonTransactionFieldsResult::default() }
    }
}

impl Default for DeclareTransactionResult {
    /// The default common fields, and the class with hash zero.
    fn default() -> (r: Self)
        ensures
            r.common_fields.code@ == Seq::<char>::empty(),
            r.common_fields.transaction_hash == (0u128, 0u128),
            r.class_hash == (0u128, 0u128),
    {
        DeclareTransactionResult {
            common_fields: CommonTransactionFieldsResult::default(),
            class_hash: ZERO,
        }
    }
}

impl Default for DeployTransactionResult {
    /// The default common fields, and the address zero.
    fn default() -> (r: Self)
        ensures
            r.common_fields.code@ == Seq::<char>::empty(),
            r.common_fields.transaction_hash == (0u128, 0u128),
            r.address == (0u128, 0u128),
    {
        DeployTransactionResult {
            common_fields: CommonTransactionFieldsResult::default(),
            address: ZERO,
        }
    }
}

} // verus!
