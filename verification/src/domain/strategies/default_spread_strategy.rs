//! The default spread strategist.
use vstd::prelude::*;
use crate::domain::strategies::spread_strategy_calculator::{idle_decision, is_idle_decision};
use crate::types::traits::{SpreadStrategist, StrategyError};
use crate::types::values::{SpreadExgData, StrategyCalc};

verus! {

/// The default spread strategist: it places and cancels no order yet.
pub struct DefaultSpreadStrategy;

impl SpreadStrategist for DefaultSpreadStrategy {
    fn calc(&self, _exg_data: &SpreadExgData) -> (res: Result<StrategyCalc, StrategyError>)
        ensures
            res matches Ok(c) && is_idle_decision(c),
    {
        Ok(idle_decision())
    }
}

} // verus!
