//! Sextant: a personal investment ledger. A transaction history and a set of
//! market prices go in; a portfolio snapshot comes out.
//!
//! ```text
//! Transaction history ──┐
//!                       ├──> engine::generate_snapshot ──> PortfolioSnapshot
//! Market data ──────────┘
//! ```
//!
//! Only assets and transactions are ever stored. Positions and snapshots
//! are engine output, regenerated on demand from the history alone.
//!
//! Modules:
//! - [`decimal`], [`calendar`], [`ids`]: the plain values everything is made of.
//! - [`domain`]: assets, transactions, positions, snapshots, the portfolio.
//! - [`engine`]: the stateless calculations over domain data.
//! - [`market_data`]: prices from outside the system, and the provider interface.
//! - [`records`]: the stored text form of assets and transactions.
//! - [`report`]: what the portfolio report prints.
//! - [`errors`]: the per-layer errors composed into one [`Error`].

pub mod calendar;
pub mod decimal;
pub mod domain;
pub mod engine;
pub mod errors;
pub mod ids;
pub mod market_data;
pub mod records;
pub mod report;

pub use calendar::{Date, Timestamp};
pub use decimal::Decimal;
pub use domain::asset::{Asset, AssetType, Currency, Ticker};
pub use domain::errors::{AssetError, DomainError, TransactionError};
pub use domain::portfolio::Portfolio;
pub use domain::position::{Position, PositionValuation};
pub use domain::snapshot::PortfolioSnapshot;
pub use domain::transaction::{Transaction, TransactionType};
pub use engine::dispatch::{DynamicPortfolioEngine, StaticPortfolioEngine};
pub use engine::errors::EngineError;
pub use engine::portfolio_engine::{
    build_holdings, generate_snapshot, try_build_holdings, try_generate_snapshot, Holdings,
};
pub use engine::repository::{InMemoryTransactionRepository, Repository};
pub use errors::Error;
pub use ids::{AssetId, PortfolioId, TransactionId};
pub use market_data::{AssetMap, MarketData, MarketDataError, MarketDataProvider, MockProvider};
pub use records::{AssetRecord, TransactionRecord};
pub use report::report_label;
