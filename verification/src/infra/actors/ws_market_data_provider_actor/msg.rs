//! Messages of the market-data provider actor.
use vstd::prelude::*;
use std::time::Duration;
use crate::infra::actors::ws_market_data_provider_actor::types::WsSubscribeParams;

verus! {

/// Asks for the merged order book.
pub struct DepthGet;

/// Merges pending diffs now and again after each period.
pub struct DepthMergeDiffsEvery(pub Duration);

/// Exports the order book to the external store now and again after each period.
pub struct ExportToKVStoreEvery(pub Duration);

/// Subscribes to a websocket topic.
pub struct Subscribe(pub WsSubscribeParams);

} // verus!
