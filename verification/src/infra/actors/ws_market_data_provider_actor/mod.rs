//! The actor that subscribes to exchange websockets and keeps the market-data
//! store up to date.
pub mod adapter;
pub mod handler;
pub mod msg;
pub mod types;
