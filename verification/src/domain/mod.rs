//! The domain model: assets, transactions, positions, snapshots and the
//! portfolio ledger. Data and the invariants that hold of it; the
//! calculations live in `engine`.

pub mod asset;
pub mod errors;
pub mod portfolio;
pub mod position;
pub mod snapshot;
pub mod transaction;
