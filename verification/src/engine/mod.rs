//! Business logic: stateless, deterministic calculations over domain data.

pub mod errors;
pub mod laws;
pub mod model;
pub mod portfolio_engine;
pub mod repository;
pub mod dispatch;
