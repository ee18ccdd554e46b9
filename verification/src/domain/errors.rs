//! Errors raised while building domain values.

use vstd::prelude::*;

verus! {

/// A buy or sell that would carry a quantity or price of zero or less.
#[derive(Debug, Clone, Copy, PartialEq, Eq)]
pub enum TransactionError {
    NonPositiveQuantity,
    NonPositivePrice,
}

impl TransactionError {
    /// The human-readable message.
    pub fn message(&self) -> (r: &'static str)
        ensures
            r@ == transaction_error_message(*self),
    {
        proof {
            reveal_strlit("quantity must be positive");
            reveal_strlit("price must be positive");
        }
        match self {
            TransactionError::NonPositiveQuantity => "quantity must be positive",
            TransactionError::NonPositivePrice => "price must be positive",
        }
    }
}

pub open spec fn transaction_error_message(e: TransactionError) -> Seq<char> {
    match e {
        TransactionError::NonPositiveQuantity => "quantity must be positive"@,
        TransactionError::NonPositivePrice => "price must be positive"@,
    }
}

/// Text that names no known currency or asset type.
#[derive(Debug, Clone, PartialEq, Eq)]
pub enum AssetError {
    UnknownCurrency(String),
    UnknownAssetType(String),
}

pub open spec fn asset_error_message(e: AssetError) -> Seq<char> {
    match e {
        AssetError::UnknownCurrency(s) => "unknown currency code: "@ + s@,
        AssetError::UnknownAssetType(s) => "unknown asset type: "@ + s@,
    }
}

impl AssetError {
    /// The human-readable message, quoting the rejected text.
    pub fn message(&self) -> (r: String)
        ensures
            r@ == asset_error_message(*self),
    {
        match self {
            AssetError::UnknownCurrency(s) => {
                let mut m = "unknown currency code: ".to_owned();
                m.append(s.as_str());
                m
            },
            AssetError::UnknownAssetType(s) => {
                let mut m = "unknown asset type: ".to_owned();
                m.append(s.as_str());
                m
            },
        }
    }
}

/// Any error of the domain layer.
#[derive(Debug, Clone, PartialEq, Eq)]
pub enum DomainError {
    Transaction(TransactionError),
    Asset(AssetError),
}

impl DomainError {
    /// The message of the wrapped error, unchanged.
    pub fn message(&self) -> (r: String)
        ensures
            r@ == domain_error_message(*self),
    {
        match self {
            DomainError::Transaction(e) => e.message().to_owned(),
            DomainError::Asset(e) => e.message(),
        }
    }
}

pub open spec fn domain_error_message(e: DomainError) -> Seq<char> {
    match e {
        DomainError::Transaction(t) => transaction_error_message(t),
        DomainError::Asset(a) => asset_error_message(a),
    }
}

impl From<TransactionError> for DomainError {
    fn from(err: TransactionError) -> (r: DomainError) {
        DomainError::Transaction(err)
    }
}

impl vstd::std_specs::convert::FromSpecImpl<TransactionError> for DomainError {
    open spec fn obeys_from_spec() -> bool {
        true
    }

    open spec fn from_spec(err: TransactionError) -> DomainError {
        DomainError::Transaction(err)
    }
}

impl From<AssetError> for DomainError {
    fn from(err: AssetError) -> (r: DomainError) {
        DomainError::Asset(err)
    }
}

impl vstd::std_specs::convert::FromSpecImpl<AssetError> for DomainError {
    open spec fn obeys_from_spec() -> bool {
        true
    }

    open spec fn from_spec(err: AssetError) -> DomainError {
        DomainError::Asset(err)
    }
}

} // verus!
