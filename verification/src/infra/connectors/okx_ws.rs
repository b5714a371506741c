//! The OKX connector that reads market data through the websocket provider.
use vstd::prelude::*;
use vstd::string::*;
use crate::bindings::{json_quote, json_string_literal, parse_url, upper, url_parse_result};
use crate::infra::actors::ws_market_data_provider_actor::adapter::WsMarketDataProviderActorAdapter;
use crate::infra::actors::ws_market_data_provider_actor::types::WsSubscribeParams;
use crate::infra::connectors::exmo_ws::depth_market_data;
use crate::infra::connectors::okx::Okx;
use crate::infra::connectors::pairs::pair_text;
use crate::market::liq::{Depth, LevelError};
use crate::market::symbol::{Symbol, SymbolView};
use crate::text::{i64_text, int_text, same_text};
use crate::types::values::{Cred, WsMarketData};

verus! {

/// The OKX connector with the market-data provider it subscribes through.
pub struct OkxWs {
    pub okx_connector: Okx,
    pub ws_market_data_provider: WsMarketDataProviderActorAdapter,
}

/// One book of an OKX depth message: ask and bid levels as texts.
#[derive(Debug)]
pub struct OkxDepthData {
    pub asks: Vec<Vec<String>>,
    pub bids: Vec<Vec<String>>,
}

/// A depth message of the OKX websocket: the action (`update` or
/// `snapshot`) and its books.
#[derive(Debug)]
pub struct OkxDepthStreamed {
    pub action: String,
    pub data: Vec<OkxDepthData>,
}

/// The text of the OKX public websocket URL.
pub open spec fn okx_public_url_text() -> Seq<char> {
    "wss://ws.okx.com:8443/ws/v5/public"@
}

/// The message subscribing to the order books of a symbol, with request id
/// `ts` (milliseconds).
pub open spec fn okx_subscribe_message(s: SymbolView, ts: int) -> Seq<char> {
    "{\"args\":[{\"channel\":\"books\",\"instId\":"@ + json_string_literal(pair_text(s, '-'))
        + "}],\"id\":\""@ + int_text(ts) + "\",\"op\":\"subscribe\"}"@
}

/// The market data that an OKX websocket message gives: the first book of a
/// depth message, as a diff for action `update` and as a snapshot for action
/// `snapshot`; any other message is unknown data described by `raw`.
pub open spec fn okx_market_data(parsed: Option<OkxDepthStreamed>, raw: Seq<char>, res: Result<WsMarketData, LevelError>) -> bool {
    match parsed {
        Some(m) => if m.action@ == "update"@ {
            depth_market_data(true, m.data@[0].asks@, m.data@[0].bids@, res)
        } else if m.action@ == "snapshot"@ {
            depth_market_data(false, m.data@[0].asks@, m.data@[0].bids@, res)
        } else {
            res matches Ok(WsMarketData::Unknown(t)) && t@ == raw
        },
        None => res matches Ok(WsMarketData::Unknown(t)) && t@ == raw,
    }
}

/// A depth message has a first book.
pub open spec fn okx_message_ok(parsed: Option<OkxDepthStreamed>) -> bool {
    parsed matches Some(m) ==> m.data@.len() > 0
}

impl OkxWs {
    pub fn new(okx_connector: Okx, ws_market_data_provider: WsMarketDataProviderActorAdapter) -> (res: OkxWs)
        ensures
            res.okx_connector == okx_connector,
            res.ws_market_data_provider == ws_market_data_provider,
    {
        OkxWs { okx_connector, ws_market_data_provider }
    }

    pub fn set_creds(&mut self, creds: Cred)
        ensures
            final(self).okx_connector.creds == creds,
            final(self).okx_connector.symbol == old(self).okx_connector.symbol,
            final(self).ws_market_data_provider == old(self).ws_market_data_provider,
    {
        self.okx_connector.set_creds(creds);
    }

    pub fn set_symbol(&mut self, symbol: Symbol)
        ensures
            final(self).okx_connector.symbol == symbol,
            final(self).okx_connector.creds == old(self).okx_connector.creds,
            final(self).ws_market_data_provider == old(self).ws_market_data_provider,
    {
        self.okx_connector.set_symbol(symbol);
    }

    /// The OKX public websocket URL.
    pub fn public_subscribe_url() -> (res: String)
        requires
            url_parse_result(okx_public_url_text()) is Some,
        ensures
            Some(res@) == url_parse_result(okx_public_url_text()),
            Some(res@) == url_parse_result("wss://ws.okx.com:8443/ws/v5/public"@),
    {
        parse_url("wss://ws.okx.com:8443/ws/v5/public").unwrap()
    }

    /// The OKX public websocket URL, when it parses.
    pub fn try_public_subscribe_url() -> (res: Option<String>)
        ensures
            match res {
                Some(u) => Some(u@) == url_parse_result(okx_public_url_text()),
                None => url_parse_result(okx_public_url_text()) is None,
            },
    {
        if parse_url("wss://ws.okx.com:8443/ws/v5/public").is_some() {
            Some(Self::public_subscribe_url())
        } else {
            None
        }
    }

    /// The message subscribing to the order books of `s`, with request id
    /// `ts_millis`.
    pub fn subscribe_message(s: &Symbol, ts_millis: i64) -> (res: String)
        ensures
            res@ == okx_subscribe_message(s@, ts_millis as int),
            res@ == "{\"args\":[{\"channel\":\"books\",\"instId\":"@ + json_string_literal(
                upper(s@.bs) + seq!['-'] + upper(s@.qt),
            ) + "}],\"id\":\""@ + int_text(ts_millis as int) + "\",\"op\":\"subscribe\"}"@,
    {
        let pair = Okx::symbol_to_pair(s);
        let quoted = json_quote(pair.as_str()).unwrap();
        let id = i64_text(ts_millis);
        let mut res = String::from_str("{\"args\":[{\"channel\":\"books\",\"instId\":");
        res.append(quoted.as_str());
        res.append("}],\"id\":\"");
        res.append(id.as_str());
        res.append("\",\"op\":\"subscribe\"}");
        res
    }

    /// The public subscription of the traded symbol: its order books on the
    /// public URL, with request id `ts_millis`.
    pub fn on_init_subscribe_ws_public(&self, ts_millis: i64) -> (res: WsSubscribeParams)
        requires
            url_parse_result(okx_public_url_text()) is Some,
        ensures
            Some(res.topic_url@) == url_parse_result(okx_public_url_text()),
            res.on_connect_send matches Some(m) && m@ == okx_subscribe_message(
                self.okx_connector.symbol@,
                ts_millis as int,
            ),
    {
        WsSubscribeParams {
            topic_url: Self::public_subscribe_url(),
            on_connect_send: Some(Self::subscribe_message(&self.okx_connector.symbol, ts_millis)),
        }
    }

    /// The public subscription of the traded symbol, when the URL parses.
    pub fn try_on_init_subscribe_ws_public(&self, ts_millis: i64) -> (res: Option<WsSubscribeParams>)
        ensures
            res is Some <==> url_parse_result(okx_public_url_text()) is Some,
            res matches Some(p) ==> (Some(p.topic_url@) == url_parse_result(okx_public_url_text()) && (
            p.on_connect_send matches Some(m) && m@ == okx_subscribe_message(
                self.okx_connector.symbol@,
                ts_millis as int,
            ))),
    {
        if parse_url("wss://ws.okx.com:8443/ws/v5/public").is_some() {
            Some(self.on_init_subscribe_ws_public(ts_millis))
        } else {
            None
        }
    }

    /// Reads the market data of a websocket message: `parsed` is the depth
    /// message it holds, if any, and `raw` describes the raw message.
    pub fn ws_parse_fn(parsed: Option<OkxDepthStreamed>, raw: String) -> (res: Result<WsMarketData, LevelError>)
        requires
            okx_message_ok(parsed),
        ensures
            okx_market_data(parsed, raw@, res),
    {
        match parsed {
            Some(m) => {
                let first = &m.data[0];
                if same_text(m.action.as_str(), "update") {
                    match Depth::from_levels(&first.asks, &first.bids) {
                        Ok(depth) => Ok(WsMarketData::DepthDiff(depth)),
                        Err(e) => Err(e),
                    }
                } else if same_text(m.action.as_str(), "snapshot") {
                    match Depth::from_levels(&first.asks, &first.bids) {
                        Ok(depth) => Ok(WsMarketData::DepthSnapshot(depth)),
                        Err(e) => Err(e),
                    }
                } else {
                    Ok(WsMarketData::Unknown(raw))
                }
            },
            None => Ok(WsMarketData::Unknown(raw)),
        }
    }

    /// Whether a parsed message that is a depth message has a first book.
    pub fn message_is_ok(parsed: &Option<OkxDepthStreamed>) -> (res: bool)
        ensures
            res == okx_message_ok(*parsed),
    {
        match parsed {
            Some(m) => m.data.len() > 0,
            None => true,
        }
    }
}

/// The OKX subscription goes to `wss://ws.okx.com:8443/ws/v5/public`, and
/// asks for the `books` channel of the symbol's pair, written `BASE-QUOTE`
/// upper-cased, with the request id written in decimal.
pub proof fn law_okx_subscription(s: SymbolView, ts: int)
    ensures
        okx_public_url_text() == "wss://ws.okx.com:8443/ws/v5/public"@,
        okx_subscribe_message(s, ts) == "{\"args\":[{\"channel\":\"books\",\"instId\":"@ + json_string_literal(
            upper(s.bs) + seq!['-'] + upper(s.qt),
        ) + "}],\"id\":\""@ + int_text(ts) + "\",\"op\":\"subscribe\"}"@,
{
}

} // verus!
