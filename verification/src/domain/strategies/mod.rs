//! Spread strategies.
pub mod default_spread_strategy;
pub mod spread_strategy_calculator;
