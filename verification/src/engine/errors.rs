//! Errors raised by the engine.

use vstd::prelude::*;

use crate::decimal::{decimal_display, Decimal};
use crate::domain::errors::{domain_error_message, DomainError};
use crate::ids::{uuid_hyphenated, AssetId};

verus! {

/// Why a transaction history could not be valued.
#[derive(Debug, Clone, PartialEq, Eq)]
pub enum EngineError {
    /// A currently held asset had no price in the market data.
    MissingMarketData(AssetId),
    /// The history sells more of an asset than was held at that point.
    OversoldAsset { asset_id: AssetId, held: Decimal, attempted: Decimal },
    Domain(DomainError),
}

pub open spec fn engine_error_message(e: EngineError) -> Seq<char> {
    match e {
        EngineError::MissingMarketData(a) => "no market data available for asset "@ + uuid_hyphenated(
            a@,
        ),
        EngineError::OversoldAsset { asset_id, held, attempted } => "asset "@ + uuid_hyphenated(
            asset_id@,
        ) + " oversold: tried to sell "@ + decimal_display(attempted@) + " with only "@
            + decimal_display(held@) + " held"@,
        EngineError::Domain(d) => domain_error_message(d),
    }
}

impl EngineError {
    /// The human-readable message.
    pub fn message(&self) -> (r: String)
        ensures
            r@ == engine_error_message(*self),
    {
        match self {
            EngineError::MissingMarketData(a) => {
                let mut m = "no market data available for asset ".to_owned();
                m.append(a.to_string().as_str());
                m
            },
            EngineError::OversoldAsset { asset_id, held, attempted } => {
                let mut m = "asset ".to_owned();
                m.append(asset_id.to_string().as_str());
                m.append(" oversold: tried to sell ");
                m.append(attempted.to_string().as_str());
                m.append(" with only ");
                m.append(held.to_string().as_str());
                m.append(" held");
                m
            },
            EngineError::Domain(d) => d.message(),
        }
    }
}

impl From<DomainError> for EngineError {
    fn from(err: DomainError) -> (r: EngineError) {
        EngineError::Domain(err)
    }
}

impl vstd::std_specs::convert::FromSpecImpl<DomainError> for EngineError {
    open spec fn obeys_from_spec() -> bool {
        true
    }

    open spec fn from_spec(err: DomainError) -> EngineError {
        EngineError::Domain(err)
    }
}

} // verus!
