//! The strategy interfaces that bots are built from.
use vstd::prelude::*;
use crate::types::values::{SpreadExgData, StrategyCalc};

verus! {

/// Why a strategy could not decide.
#[derive(Debug)]
pub enum StrategyError {
    Failed(String),
}

/// A strategy deciding from exchange data of type `T` which orders to place
/// and which to cancel.
pub trait StrategyCalculator<T> {
    fn calc(&self, exg_data: &T) -> Result<StrategyCalc, StrategyError>;
}

/// A strategy working on spread data.
pub trait SpreadStrategist {
    fn calc(&self, exg_data: &SpreadExgData) -> Result<StrategyCalc, StrategyError>;
}

} // verus!
