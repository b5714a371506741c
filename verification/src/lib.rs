//! Verified core of a single-pair market-making bot: order-book bookkeeping,
//! exchange symbol and topic handling, bot configuration and the decisions of
//! the trading loop.
pub mod actors;
pub mod bindings;
pub mod bots;
pub mod domain;
pub mod text;
pub mod types;
pub mod market;
pub mod infra;
