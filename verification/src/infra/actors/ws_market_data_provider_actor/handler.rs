//! What the provider actor does with one websocket message.
use vstd::prelude::*;
use crate::infra::actors::ws_market_data_provider_actor::types::WsSubscribeParams;
use crate::infra::stores::default_ws_market_data_store::DefaultWsMarketDataStore;
use crate::types::values::WsMarketData;

verus! {

/// What became of a websocket message.
#[derive(Debug)]
pub enum WsMsgOutcome {
    /// The message could not be read; the reason.
    ParseFailed(String),
    /// The message held no market data the bot uses; its description.
    UnknownData(String),
    /// The message's order-book diff was queued.
    DiffAdded,
    /// The message's order book replaced the snapshot.
    SnapshotSet,
}

/// Applies the market data read from a websocket message to the store: a
/// diff is queued, a snapshot replaces the book; a parse failure or unknown
/// data leaves the store as it was.
pub fn on_ws_market_data<K>(store: &mut DefaultWsMarketDataStore<K>, parsed: Result<WsMarketData, String>) -> (res: WsMsgOutcome)
    ensures
        final(store).external_kvstore() == old(store).external_kvstore(),
        final(store)@.name == old(store)@.name,
        match parsed {
            Err(e) => final(store)@ == old(store)@ && (res matches WsMsgOutcome::ParseFailed(t) && t@ == e@),
            Ok(WsMarketData::Unknown(d)) => final(store)@ == old(store)@ && (res matches WsMsgOutcome::UnknownData(
                t,
            ) && t@ == d@),
            Ok(WsMarketData::DepthDiff(d)) => res matches WsMsgOutcome::DiffAdded && final(store)@.snapshot == old(
                store,
            )@.snapshot && final(store)@.diffs == old(store)@.diffs.push(d),
            Ok(WsMarketData::DepthSnapshot(d)) => res matches WsMsgOutcome::SnapshotSet && final(store)@.snapshot
                == d@ && final(store)@.diffs == old(store)@.diffs,
        },
{
    match parsed {
        Err(e) => WsMsgOutcome::ParseFailed(e),
        Ok(WsMarketData::Unknown(d)) => WsMsgOutcome::UnknownData(d),
        Ok(WsMarketData::DepthDiff(d)) => {
            store.depth_add_diff(d);
            WsMsgOutcome::DiffAdded
        },
        Ok(WsMarketData::DepthSnapshot(d)) => {
            store.depth_set_snapshot(d);
            WsMsgOutcome::SnapshotSet
        },
    }
}

/// How long a subscription waits before subscribing again once its
/// connection failed or ended, in milliseconds.
pub const RESUBSCRIBE_AFTER_MILLIS: u64 = 5000;

/// What happens on a subscription's websocket connection.
#[derive(Debug)]
pub enum WsSessionEvent {
    /// The connection is open.
    Connected,
    /// The connection could not be made; the reason.
    ConnectFailed(String),
    /// A frame could not be read; the reason.
    FrameError(String),
    /// The server pinged with this payload.
    Ping(Vec<u8>),
    /// Any other frame arrived.
    Frame,
    /// The stream ended.
    Closed,
}

/// What the subscription does in answer.
#[derive(Debug, PartialEq, Eq)]
pub enum WsSessionAction {
    /// Send this text.
    Send(String),
    /// Answer the ping with the same payload.
    Pong(Vec<u8>),
    /// Hand the frame to the provider actor, which reads it.
    Forward,
    /// Report this problem and go on.
    Report(String),
    /// Subscribe again after this many milliseconds.
    Resubscribe(u64),
    /// Nothing to do.
    Idle,
}

/// The answer of a subscription to an event on its connection: once
/// connected, send the subscription message if there is one; answer pings;
/// hand other frames to the provider; report unreadable frames and go on;
/// after a failed or ended connection, subscribe again after
/// [`RESUBSCRIBE_AFTER_MILLIS`].
pub fn on_ws_session_event(params: &WsSubscribeParams, event: WsSessionEvent) -> (res: WsSessionAction)
    ensures
        match event {
            WsSessionEvent::Connected => match params.on_connect_send {
                Some(m) => res == WsSessionAction::Send(m),
                None => res == WsSessionAction::Idle,
            },
            WsSessionEvent::ConnectFailed(e) => res == WsSessionAction::Resubscribe(RESUBSCRIBE_AFTER_MILLIS),
            WsSessionEvent::FrameError(e) => res == WsSessionAction::Report(e),
            WsSessionEvent::Ping(d) => res == WsSessionAction::Pong(d),
            WsSessionEvent::Frame => res == WsSessionAction::Forward,
            WsSessionEvent::Closed => res == WsSessionAction::Resubscribe(RESUBSCRIBE_AFTER_MILLIS),
        },
{
    match event {
        WsSessionEvent::Connected => match &params.on_connect_send {
            Some(m) => WsSessionAction::Send(m.clone()),
            None => WsSessionAction::Idle,
        },
        WsSessionEvent::ConnectFailed(_e) => WsSessionAction::Resubscribe(RESUBSCRIBE_AFTER_MILLIS),
        WsSessionEvent::FrameError(e) => WsSessionAction::Report(e),
        WsSessionEvent::Ping(d) => WsSessionAction::Pong(d),
        WsSessionEvent::Frame => WsSessionAction::Forward,
        WsSessionEvent::Closed => WsSessionAction::Resubscribe(RESUBSCRIBE_AFTER_MILLIS),
    }
}

} // verus!
