//! The spread strategy used by the single-pair bot.
use vstd::prelude::*;
use vstd::string::*;
use crate::types::traits::{StrategyCalculator, StrategyError};
use crate::types::values::{SpreadExgData, StrategyCalc};

verus! {

/// The meta text of a decision with no details: the JSON string `"{}"`.
pub open spec fn empty_meta() -> Seq<char> {
    "\"{}\""@
}

/// A decision that places and cancels nothing.
pub open spec fn is_idle_decision(c: StrategyCalc) -> bool {
    c.orders_to_place@.len() == 0 && c.order_ids_to_cancel@.len() == 0 && c.meta@ == empty_meta()
}

/// A decision that places and cancels nothing.
pub fn idle_decision() -> (res: StrategyCalc)
    ensures
        is_idle_decision(res),
{
    StrategyCalc { orders_to_place: Vec::new(), order_ids_to_cancel: Vec::new(), meta: String::from_str("\"{}\"") }
}

/// The spread strategy: it places and cancels no order yet.
pub struct SpreadStrategyCalculator;

impl StrategyCalculator<SpreadExgData> for SpreadStrategyCalculator {
    fn calc(&self, _exg_data: &SpreadExgData) -> (res: Result<StrategyCalc, StrategyError>)
        ensures
            res matches Ok(c) && is_idle_decision(c),
    {
        Ok(idle_decision())
    }
}

} // verus!
