//! The EXMO connector that reads market data through the websocket provider.
use vstd::prelude::*;
use vstd::string::*;
use crate::bindings::url_parse_result;
use crate::infra::actors::ws_market_data_provider_actor::adapter::WsMarketDataProviderActorAdapter;
use crate::infra::actors::ws_market_data_provider_actor::types::WsSubscribeParams;
use crate::infra::connectors::exmo::{
    Exmo, exmo_subscribe_message, exmo_symbol_of_topic, exmo_topic, exmo_topic_url_text,
};
use crate::infra::connectors::pairs::ConnectorError;
use crate::market::liq::{Depth, DepthView, LevelError, depth_error_of, levels_liqs, levels_ok};
use crate::market::symbol::Symbol;
use crate::text::same_text;
use crate::types::values::{Cred, WsMarketData};

verus! {

/// The EXMO connector with the market-data provider it subscribes through.
pub struct ExmoWs {
    pub exmo_connector: Exmo,
    pub ws_market_data_provider: WsMarketDataProviderActorAdapter,
}

/// A depth message of the EXMO websocket: the event (`update` or
/// `snapshot`) and the ask and bid levels as texts.
#[derive(Debug)]
pub struct ExmoDepthStreamed {
    pub event: String,
    pub ask: Vec<Vec<String>>,
    pub bid: Vec<Vec<String>>,
}

/// `d` is the order book that the ask and bid level texts describe.
pub open spec fn depth_of_levels(d: DepthView, ask: Seq<Vec<String>>, bid: Seq<Vec<String>>) -> bool {
    d.asks == levels_liqs(ask) && d.bids == levels_liqs(bid)
}

/// The market data of a depth message with event `update` (a diff) or
/// `snapshot` (a snapshot), read from its ask and bid level texts; the error
/// of the first level that cannot be read.
pub open spec fn depth_market_data(is_update: bool, ask: Seq<Vec<String>>, bid: Seq<Vec<String>>, res: Result<WsMarketData, LevelError>) -> bool {
    if levels_ok(ask) && levels_ok(bid) {
        if is_update {
            res matches Ok(WsMarketData::DepthDiff(d)) && depth_of_levels(d@, ask, bid)
        } else {
            res matches Ok(WsMarketData::DepthSnapshot(d)) && depth_of_levels(d@, ask, bid)
        }
    } else {
        res matches Err(e) && depth_error_of(ask, bid, e)
    }
}

/// The market data that an EXMO websocket message gives: a depth message
/// with event `update` is a diff, with event `snapshot` a snapshot; any
/// other message is unknown data described by `raw`.
pub open spec fn exmo_market_data(parsed: Option<ExmoDepthStreamed>, raw: Seq<char>, res: Result<WsMarketData, LevelError>) -> bool {
    match parsed {
        Some(m) => if m.event@ == "update"@ {
            depth_market_data(true, m.ask@, m.bid@, res)
        } else if m.event@ == "snapshot"@ {
            depth_market_data(false, m.ask@, m.bid@, res)
        } else {
            res matches Ok(WsMarketData::Unknown(t)) && t@ == raw
        },
        None => res matches Ok(WsMarketData::Unknown(t)) && t@ == raw,
    }
}

impl ExmoWs {
    pub fn new(exmo_connector: Exmo, ws_market_data_provider: WsMarketDataProviderActorAdapter) -> (res: ExmoWs)
        ensures
            res.exmo_connector == exmo_connector,
            res.ws_market_data_provider == ws_market_data_provider,
    {
        ExmoWs { exmo_connector, ws_market_data_provider }
    }

    pub fn set_creds(&mut self, creds: Cred)
        ensures
            final(self).exmo_connector.creds == creds,
            final(self).exmo_connector.symbol == old(self).exmo_connector.symbol,
            final(self).ws_market_data_provider == old(self).ws_market_data_provider,
    {
        self.exmo_connector.set_creds(creds);
    }

    pub fn set_symbol(&mut self, symbol: Symbol)
        ensures
            final(self).exmo_connector.symbol == symbol,
            final(self).exmo_connector.creds == old(self).exmo_connector.creds,
            final(self).ws_market_data_provider == old(self).ws_market_data_provider,
    {
        self.exmo_connector.set_symbol(symbol);
    }

    /// `spot/order_book_snapshots:BASE_QUOTE`.
    pub fn symbol_to_depth_subscribe_topic(s: &Symbol) -> (res: String)
        ensures
            res@ == exmo_topic(s@),
    {
        Exmo::depth_topic(s)
    }

    /// The websocket URL of the depth topic of `s`.
    pub fn depth_subscribe_topic_url(s: &Symbol) -> (res: String)
        requires
            url_parse_result(exmo_topic_url_text(s@)) is Some,
        ensures
            Some(res@) == url_parse_result(exmo_topic_url_text(s@)),
    {
        let p = Exmo::depth_subscribe_params(s);
        p.topic_url
    }

    /// The websocket URL of the depth topic of `s`, when it parses.
    pub fn try_depth_subscribe_topic_url(s: &Symbol) -> (res: Option<String>)
        ensures
            match res {
                Some(u) => Some(u@) == url_parse_result(exmo_topic_url_text(s@)),
                None => url_parse_result(exmo_topic_url_text(s@)) is None,
            },
    {
        match Exmo::try_depth_subscribe_params(s) {
            Some(_) => Some(Self::depth_subscribe_topic_url(s)),
            None => None,
        }
    }

    /// The symbol of a topic such as `spot/order_book_snapshots:ETH_USDT`.
    pub fn symbol_from_topic(topic: &str) -> (res: Result<Symbol, ConnectorError>)
        ensures
            match res {
                Ok(s) => exmo_symbol_of_topic(topic@) == Some(s@),
                Err(e) => exmo_symbol_of_topic(topic@) is None && (e matches ConnectorError::BadTopic(t)
                    && t@ == topic@),
            },
    {
        Exmo::symbol_from_topic(topic)
    }

    /// The public subscription of the traded symbol: its depth topic.
    pub fn on_init_subscribe_ws_public(&self) -> (res: WsSubscribeParams)
        requires
            url_parse_result(exmo_topic_url_text(self.exmo_connector.symbol@)) is Some,
        ensures
            Some(res.topic_url@) == url_parse_result(exmo_topic_url_text(self.exmo_connector.symbol@)),
            res.on_connect_send matches Some(m) && m@ == exmo_subscribe_message(self.exmo_connector.symbol@),
    {
        Exmo::depth_subscribe_params(&self.exmo_connector.symbol)
    }

    /// The public subscription of the traded symbol, when its URL parses.
    pub fn try_on_init_subscribe_ws_public(&self) -> (res: Option<WsSubscribeParams>)
        ensures
            res is Some <==> url_parse_result(exmo_topic_url_text(self.exmo_connector.symbol@)) is Some,
            res matches Some(p) ==> (Some(p.topic_url@) == url_parse_result(
                exmo_topic_url_text(self.exmo_connector.symbol@),
            ) && (p.on_connect_send matches Some(m) && m@ == exmo_subscribe_message(
                self.exmo_connector.symbol@,
            ))),
    {
        Exmo::try_depth_subscribe_params(&self.exmo_connector.symbol)
    }

    /// Reads the market data of a websocket message: `parsed` is the depth
    /// message it holds, if any, and `raw` describes the raw message.
    pub fn ws_parse_fn(parsed: Option<ExmoDepthStreamed>, raw: String) -> (res: Result<WsMarketData, LevelError>)
        ensures
            exmo_market_data(parsed, raw@, res),
    {
        match parsed {
            Some(m) => {
                if same_text(m.event.as_str(), "update") {
                    match Depth::from_levels(&m.ask, &m.bid) {
                        Ok(depth) => Ok(WsMarketData::DepthDiff(depth)),
                        Err(e) => Err(e),
                    }
                } else if same_text(m.event.as_str(), "snapshot") {
                    match Depth::from_levels(&m.ask, &m.bid) {
                        Ok(depth) => Ok(WsMarketData::DepthSnapshot(depth)),
                        Err(e) => Err(e),
                    }
                } else {
                    Ok(WsMarketData::Unknown(raw))
                }
            },
            None => Ok(WsMarketData::Unknown(raw)),
        }
    }
}

} // verus!
