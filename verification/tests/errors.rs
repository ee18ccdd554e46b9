use sextant::{AssetError, DomainError, EngineError, Error, TransactionError};

#[test]
fn transaction_errors_widen_all_the_way_to_the_top_level_error() {
    let err: Error = TransactionError::NonPositiveQuantity.into();
    assert_eq!(
        err,
        Error::Domain(DomainError::Transaction(
            TransactionError::NonPositiveQuantity
        ))
    );
    assert_eq!(err.message(), "quantity must be positive");
}

#[test]
fn engine_errors_widen_to_the_top_level_error() {
    let engine_err = EngineError::Domain(DomainError::Asset(AssetError::UnknownCurrency(
        "XYZ".to_string(),
    )));
    let err: Error = engine_err.into();
    assert_eq!(err.message(), "unknown currency code: XYZ");
}

#[test]
fn asset_errors_widen_through_the_domain_layer() {
    let err: Error = AssetError::UnknownAssetType("bond".to_string()).into();
    assert_eq!(
        err,
        Error::Domain(DomainError::Asset(AssetError::UnknownAssetType("bond".to_string())))
    );
    let domain: DomainError = TransactionError::NonPositivePrice.into();
    assert_eq!(domain.message(), "price must be positive");
    let engine: EngineError = domain.into();
    assert_eq!(engine.message(), "price must be positive");
}
