//! The crate-wide error: every layer's error, composed.

use vstd::prelude::*;

use crate::domain::errors::{domain_error_message, AssetError, DomainError, TransactionError};
use crate::engine::errors::{engine_error_message, EngineError};
use crate::market_data::{market_data_error_message, MarketDataError};

verus! {

/// The error a top-level caller sees. Its message is the wrapped error's,
/// unchanged.
#[derive(Debug, Clone, PartialEq, Eq)]
pub enum Error {
    Domain(DomainError),
    Engine(EngineError),
    MarketData(MarketDataError),
}

pub open spec fn error_message(e: Error) -> Seq<char> {
    match e {
        Error::Domain(d) => domain_error_message(d),
        Error::Engine(g) => engine_error_message(g),
        Error::MarketData(m) => market_data_error_message(m),
    }
}

impl Error {
    /// The message of the wrapped error.
    pub fn message(&self) -> (r: String)
        ensures
            r@ == error_message(*self),
    {
        match self {
            Error::Domain(d) => d.message(),
            Error::Engine(g) => g.message(),
            Error::MarketData(m) => m.message(),
        }
    }
}

impl From<DomainError> for Error {
    fn from(err: DomainError) -> (r: Error) {
        Error::Domain(err)
    }
}

impl vstd::std_specs::convert::FromSpecImpl<DomainError> for Error {
    open spec fn obeys_from_spec() -> bool {
        true
    }

    open spec fn from_spec(err: DomainError) -> Error {
        Error::Domain(err)
    }
}

impl From<EngineError> for Error {
    fn from(err: EngineError) -> (r: Error) {
        Error::Engine(err)
    }
}

impl vstd::std_specs::convert::FromSpecImpl<EngineError> for Error {
    open spec fn obeys_from_spec() -> bool {
        true
    }

    open spec fn from_spec(err: EngineError) -> Error {
        Error::Engine(err)
    }
}

impl From<MarketDataError> for Error {
    fn from(err: MarketDataError) -> (r: Error) {
        Error::MarketData(err)
    }
}

impl vstd::std_specs::convert::FromSpecImpl<MarketDataError> for Error {
    open spec fn obeys_from_spec() -> bool {
        true
    }

    open spec fn from_spec(err: MarketDataError) -> Error {
        Error::MarketData(err)
    }
}

impl From<TransactionError> for Error {
    /// A transaction error widens through the domain layer.
    fn from(err: TransactionError) -> (r: Error) {
        Error::Domain(DomainError::Transaction(err))
    }
}

impl vstd::std_specs::convert::FromSpecImpl<TransactionError> for Error {
    open spec fn obeys_from_spec() -> bool {
        true
    }

    open spec fn from_spec(err: TransactionError) -> Error {
        Error::Domain(DomainError::Transaction(err))
    }
}

impl From<AssetError> for Error {
    /// An asset error widens through the domain layer.
    fn from(err: AssetError) -> (r: Error) {
        Error::Domain(DomainError::Asset(err))
    }
}

impl vstd::std_specs::convert::FromSpecImpl<AssetError> for Error {
    open spec fn obeys_from_spec() -> bool {
        true
    }

    open spec fn from_spec(err: AssetError) -> Error {
        Error::Domain(DomainError::Asset(err))
    }
}

} // verus!
