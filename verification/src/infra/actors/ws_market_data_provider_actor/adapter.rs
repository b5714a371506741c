//! The handle through which connectors reach the market-data provider actor.
use vstd::prelude::*;
use std::time::Duration;

verus! {

/// Names the provider actor and its merge and export periods.
pub struct WsMarketDataProviderActorAdapter {
    pub name: String,
    pub merge_diffs_every: Duration,
    pub export_to_external_kvstore_every: Duration,
}

impl WsMarketDataProviderActorAdapter {
    /// The name the provider actor is registered under.
    pub fn name(&self) -> (res: &str)
        ensures
            res@ == self.name@,
    {
        self.name.as_str()
    }
}

} // verus!
