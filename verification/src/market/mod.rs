//! Market data: symbols, liquidity levels, order-book sides and their merge.
pub mod book;
pub mod decimal;
pub mod liq;
pub mod symbol;
