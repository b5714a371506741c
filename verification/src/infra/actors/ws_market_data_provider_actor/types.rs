//! Subscription parameters.
use vstd::prelude::*;

verus! {

/// Where to subscribe and what to send once connected.
#[derive(Debug)]
pub struct WsSubscribeParams {
    /// The websocket URL, as the URL parser serializes it.
    pub topic_url: String,
    /// A message to send right after connecting.
    pub on_connect_send: Option<String>,
}

} // verus!
