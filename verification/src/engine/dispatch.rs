//! Static and dynamic dispatch over a price provider, built both ways.
//!
//! The pure engine needs neither: it takes prices as data. These wrappers
//! are for the impure edge that fetches those prices first.

use vstd::prelude::*;

use crate::decimal::Decimal;
use crate::ids::AssetId;
use crate::market_data::{MarketDataError, MarketDataProvider};

verus! {

/// Holds one provider of a type fixed at compile time.
pub struct StaticPortfolioEngine<P: MarketDataProvider> {
    pub(crate) provider: P,
}

impl<P: MarketDataProvider> StaticPortfolioEngine<P> {
    pub open(crate) spec fn provider(&self) -> P {
        self.provider
    }

    pub fn new(provider: P) -> (r: StaticPortfolioEngine<P>)
        ensures
            r.provider() == provider,
    {
        StaticPortfolioEngine { provider }
    }

    /// What the provider quotes for `asset_id`: a result that the provider's
    /// `price` can give for it.
    pub fn latest_price(&self, asset_id: &AssetId) -> (r: Result<Decimal, MarketDataError>)
        ensures
            call_ensures(P::price, (&self.provider(), asset_id), r),
            self.provider().may_quote(*asset_id, r),
    {
        self.provider.price(asset_id)
    }
}

/// Holds one provider whose type is chosen at run time.
pub struct DynamicPortfolioEngine {
    pub(crate) provider: Box<dyn MarketDataProvider>,
}

impl DynamicPortfolioEngine {
    /// `r` is an answer the held provider may give for `asset_id`.
    pub closed spec fn may_quote(&self, asset_id: AssetId, r: Result<Decimal, MarketDataError>) -> bool {
        self.provider.may_quote(asset_id, r)
    }

    pub fn new(provider: Box<dyn MarketDataProvider>) -> DynamicPortfolioEngine {
        DynamicPortfolioEngine { provider }
    }

    /// What the provider quotes for `asset_id`: an answer it may give.
    pub fn latest_price(&self, asset_id: &AssetId) -> (r: Result<Decimal, MarketDataError>)
        ensures
            self.may_quote(*asset_id, r),
    {
        self.provider.price(asset_id)
    }
}

} // verus!
