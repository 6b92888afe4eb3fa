//! Answers of a gateway.
use papyrus::output::transaction::{
    AddTransactionResult, CommonTransactionFieldsResult, DeclareTransactionResult,
    DeployTransactionResult, FeeEstimate, InvokeTransactionResult,
};

#[test]
fn defaults_are_empty() {
    let common =
        CommonTransactionFieldsResult { code: String::new(), transaction_hash: (0, 0) };
    assert_eq!(CommonTransactionFieldsResult::default(), common);
    assert_eq!(
        FeeEstimate::default(),
        FeeEstimate { overall_fee: 0, gas_price: 0, gas_usage: 0, unit: String::new() }
    );
    assert_eq!(
        InvokeTransactionResult::default(),
        InvokeTransactionResult { common_fields: common.clone() }
    );
    assert_eq!(
        DeclareTransactionResult::default(),
        DeclareTransactionResult { common_fields: common.clone(), class_hash: (0, 0) }
    );
    assert_eq!(
        DeployTransactionResult::default(),
        DeployTransactionResult { common_fields: common, address: (0, 0) }
    );
}

#[test]
fn clones_are_equal() {
    let common = CommonTransactionFieldsResult {
        code: String::from("TRANSACTION_RECEIVED"),
        transaction_hash: (1, 2),
    };
    let estimate = FeeEstimate {
        overall_fee: 6,
        gas_price: 2,
        gas_usage: 3,
        unit: String::from("wei"),
    };
    assert_eq!(estimate.clone(), estimate);
    assert_ne!(estimate, FeeEstimate::default());
    let results = [
        AddTransactionResult::Declare(DeclareTransactionResult {
            common_fields: common.clone(),
            class_hash: (3, 4),
        }),
        AddTransactionResult::Deploy(DeployTransactionResult {
            common_fields: common.clone(),
            address: (3, 4),
        }),
        AddTransactionResult::Invoke(InvokeTransactionResult { common_fields: common }),
    ];
    for result in &results {
        assert_eq!(&result.clone(), result);
    }
    assert_ne!(results[0], results[1]);
    assert_ne!(results[1], results[2]);
}
