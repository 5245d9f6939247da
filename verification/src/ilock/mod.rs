//! The ILOCK token contract.
pub mod pools;
pub mod errors;
pub mod token;
pub mod distribution;
pub mod rewards;
pub mod reports;
pub mod laws;
pub mod history;
pub mod guards;
