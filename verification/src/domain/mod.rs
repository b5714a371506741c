//! Trading strategies.
pub mod strategies;
