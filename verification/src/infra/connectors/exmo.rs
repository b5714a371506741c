//! The EXMO exchange: pairs `BASE_QUOTE`, depth topics
//! `spot/order_book_snapshots:BASE_QUOTE`.
use vstd::prelude::*;
use vstd::string::*;
use crate::actors::ws_datastore_actor::{datastore_actor_name, datastore_actor_name_spec};
use crate::bindings::{json_quote, json_string_literal, parse_url, url_parse_result};
use crate::infra::actors::ws_market_data_provider_actor::types::WsSubscribeParams;
use crate::infra::connectors::pairs::{
    ConnectorError, lemma_upper_normal, law_pair_round_trip, normal_currency, pair_of_symbol, pair_text,
    symbol_of_pair, symbol_of_pair_text,
};
use crate::market::liq::Depth;
use crate::market::symbol::{Symbol, SymbolView};
use crate::bindings::upper;
use crate::text::{all_ascii, ascii_upper, lemma_ascii_upper_idempotent, lemma_split_once_spec, splits_at_first, last_piece, last_piece_spec, lemma_last_piece_spec, same_text, splits_at_last};
use crate::types::values::Cred;

verus! {

/// The EXMO connector: credentials and the symbol traded.
#[derive(Debug)]
pub struct Exmo {
    pub creds: Cred,
    pub symbol: Symbol,
}

/// The exchange name EXMO symbols carry.
pub open spec fn exmo_name() -> Seq<char> {
    "exmo"@
}

/// The depth topic of a symbol.
pub open spec fn exmo_topic(s: SymbolView) -> Seq<char> {
    "spot/order_book_snapshots:"@ + pair_text(s, '_')
}

/// The text of the websocket URL for the depth topic of a symbol.
pub open spec fn exmo_topic_url_text(s: SymbolView) -> Seq<char> {
    "wss://ws-api.exmo.com:443/v1/public/"@ + exmo_topic(s)
}

/// The message subscribing to the depth topic of a symbol.
pub open spec fn exmo_subscribe_message(s: SymbolView) -> Seq<char> {
    "{\"id\":1,\"method\":\"subscribe\",\"topics\":["@ + json_string_literal(exmo_topic(s)) + "]}"@
}

/// The symbol that a depth topic names: the pair after the last `:`.
pub open spec fn exmo_symbol_of_topic(topic: Seq<char>) -> Option<SymbolView> {
    symbol_of_pair(last_piece_spec(topic, ':'), exmo_name(), '_')
}

/// Where a depth message goes: the store it is for and what to do there.
#[derive(Debug)]
pub enum DepthRoute {
    /// Queue the depth as a diff of the store's book.
    AddDiff { store: String, depth: Depth },
    /// Replace the store's book by the depth.
    SetSnapshot { store: String, depth: Depth },
}

impl Exmo {
    pub fn new(creds: Cred, symbol: Symbol) -> (res: Exmo)
        ensures
            res.creds == creds,
            res.symbol == symbol,
    {
        Exmo { creds, symbol }
    }

    pub fn set_creds(&mut self, creds: Cred)
        ensures
            final(self).creds == creds,
            final(self).symbol == old(self).symbol,
    {
        self.creds = creds;
    }

    pub fn set_symbol(&mut self, symbol: Symbol)
        ensures
            final(self).symbol == symbol,
            final(self).creds == old(self).creds,
    {
        self.symbol = symbol;
    }

    /// `exmo:BTC/USD` gives `BTC_USD`.
    pub fn symbol_to_pair(s: &Symbol) -> (res: String)
        ensures
            res@ == pair_text(s@, '_'),
    {
        pair_of_symbol(s, '_')
    }

    /// `BTC_USD` gives `exmo:BTC/USD`; an error when there is no `_`.
    pub fn pair_to_symbol(pair: &str) -> (res: Result<Symbol, ConnectorError>)
        ensures
            match res {
                Ok(s) => symbol_of_pair(pair@, exmo_name(), '_') == Some(s@),
                Err(e) => symbol_of_pair(pair@, exmo_name(), '_') is None && (e matches ConnectorError::BadPair(
                    p,
                ) && p@ == pair@),
            },
    {
        match symbol_of_pair_text(pair, "exmo", '_') {
            Some(s) => Ok(s),
            None => Err(ConnectorError::BadPair(String::from_str(pair))),
        }
    }

    /// The depth topic of `s`: `spot/order_book_snapshots:BASE_QUOTE`.
    pub fn depth_topic(s: &Symbol) -> (res: String)
        ensures
            res@ == exmo_topic(s@),
            res@ == "spot/order_book_snapshots:"@ + pair_text(s@, '_'),
    {
        let mut res = String::from_str("spot/order_book_snapshots:");
        let pair = Self::symbol_to_pair(s);
        res.append(pair.as_str());
        res
    }

    /// The text of the websocket URL of the depth topic of `s`.
    pub fn depth_topic_url_text(s: &Symbol) -> (res: String)
        ensures
            res@ == exmo_topic_url_text(s@),
            res@ == "wss://ws-api.exmo.com:443/v1/public/spot/order_book_snapshots:"@ + pair_text(s@, '_'),
    {
        let mut res = String::from_str("wss://ws-api.exmo.com:443/v1/public/");
        let topic = Self::depth_topic(s);
        res.append(topic.as_str());
        proof {
            law_exmo_topic_url(s@);
        }
        res
    }

    /// The message subscribing to the depth topic of `s`:
    /// `{"id":1,"method":"subscribe","topics":["<topic>"]}`.
    pub fn depth_subscribe_message(s: &Symbol) -> (res: String)
        ensures
            res@ == exmo_subscribe_message(s@),
            res@ == "{\"id\":1,\"method\":\"subscribe\",\"topics\":["@ + json_string_literal(
                "spot/order_book_snapshots:"@ + upper(s@.bs) + seq!['_'] + upper(s@.qt),
            ) + "]}"@,
    {
        proof {
            law_exmo_topic_url(s@);
        }
        let topic = Self::depth_topic(s);
        let quoted = json_quote(topic.as_str()).unwrap();
        let mut res = String::from_str("{\"id\":1,\"method\":\"subscribe\",\"topics\":[");
        res.append(quoted.as_str());
        res.append("]}");
        res
    }

    /// The subscription to the depth topic of `s`.
    pub fn depth_subscribe_params(s: &Symbol) -> (res: WsSubscribeParams)
        requires
            url_parse_result(exmo_topic_url_text(s@)) is Some,
        ensures
            Some(res.topic_url@) == url_parse_result(exmo_topic_url_text(s@)),
            res.on_connect_send matches Some(m) && m@ == exmo_subscribe_message(s@),
    {
        let text = Self::depth_topic_url_text(s);
        let url = parse_url(text.as_str());
        WsSubscribeParams { topic_url: url.unwrap(), on_connect_send: Some(Self::depth_subscribe_message(s)) }
    }

    /// The subscription to the depth topic of `s`, when its URL parses.
    pub fn try_depth_subscribe_params(s: &Symbol) -> (res: Option<WsSubscribeParams>)
        ensures
            res is Some <==> url_parse_result(exmo_topic_url_text(s@)) is Some,
            res matches Some(p) ==> (Some(p.topic_url@) == url_parse_result(exmo_topic_url_text(s@))
                && (p.on_connect_send matches Some(m) && m@ == exmo_subscribe_message(s@))),
            res matches Some(p) ==> Some(p.topic_url@) == url_parse_result(
                "wss://ws-api.exmo.com:443/v1/public/spot/order_book_snapshots:"@ + pair_text(s@, '_'),
            ),
    {
        proof {
            law_exmo_topic_url(s@);
        }
        let text = Self::depth_topic_url_text(s);
        if parse_url(text.as_str()).is_some() {
            Some(Self::depth_subscribe_params(s))
        } else {
            None
        }
    }

    /// The symbol of a depth topic such as `spot/order_book_snapshots:ETH_USDT`.
    pub fn symbol_from_topic(topic: &str) -> (res: Result<Symbol, ConnectorError>)
        ensures
            match res {
                Ok(s) => exmo_symbol_of_topic(topic@) == Some(s@),
                Err(e) => exmo_symbol_of_topic(topic@) is None && (e matches ConnectorError::BadTopic(t)
                    && t@ == topic@),
            },
    {
        let pair = last_piece(topic, ':');
        match Self::pair_to_symbol(pair.as_str()) {
            Ok(s) => Ok(s),
            Err(_) => Err(ConnectorError::BadTopic(String::from_str(topic))),
        }
    }

    /// Routes a depth message of `topic`: an `update` event is a diff, a
    /// `snapshot` event replaces the book, both for the store of the topic's
    /// symbol; a topic without a symbol or another event is an error.
    pub fn route_depth_message(topic: &str, event: &str, depth: Depth) -> (res: Result<DepthRoute, ConnectorError>)
        ensures
            match exmo_symbol_of_topic(topic@) {
                None => res matches Err(ConnectorError::BadTopic(t)) && t@ == topic@,
                Some(sym) => if event@ == "update"@ {
                    res matches Ok(DepthRoute::AddDiff { store, depth: d }) && store@ == datastore_actor_name_spec(
                        sym,
                    ) && d == depth
                } else if event@ == "snapshot"@ {
                    res matches Ok(DepthRoute::SetSnapshot { store, depth: d }) && store@
                        == datastore_actor_name_spec(sym) && d == depth
                } else {
                    res matches Err(ConnectorError::BadEvent(e)) && e@ == event@
                },
            },
    {
        let symbol = match Self::symbol_from_topic(topic) {
            Ok(s) => s,
            Err(e) => {
                return Err(e);
            },
        };
        let store = datastore_actor_name(&symbol);
        if same_text(event, "update") {
            Ok(DepthRoute::AddDiff { store, depth })
        } else if same_text(event, "snapshot") {
            Ok(DepthRoute::SetSnapshot { store, depth })
        } else {
            Err(ConnectorError::BadEvent(String::from_str(event)))
        }
    }
}

/// The symbol read back from the depth topic of a symbol is that symbol, when
/// it is an EXMO symbol with normal currencies, the base holds no `_` and
/// neither currency holds a `:`.
pub proof fn law_exmo_topic_round_trip(s: SymbolView)
    requires
        s.eg == exmo_name(),
        normal_currency(s.bs),
        normal_currency(s.qt),
        !s.bs.contains('_'),
        !s.bs.contains(':'),
        !s.qt.contains(':'),
    ensures
        exmo_symbol_of_topic(exmo_topic(s)) == Some(s),
{
    reveal_strlit("spot/order_book_snapshots:");
    reveal_strlit("spot/order_book_snapshots");
    lemma_upper_normal(s.bs);
    lemma_upper_normal(s.qt);
    let pair = pair_text(s, '_');
    let prefix = "spot/order_book_snapshots"@;
    assert("spot/order_book_snapshots:"@ =~= prefix + seq![':']);
    assert(!pair.contains(':')) by {
        if pair.contains(':') {
            let i = choose|i: int| 0 <= i < pair.len() && pair[i] == ':';
            if i < s.bs.len() {
                assert(s.bs[i] == ':');
            } else if i > s.bs.len() {
                assert(s.qt[i - s.bs.len() - 1] == ':');
            }
        }
    }
    assert(splits_at_last(exmo_topic(s), ':', prefix, pair));
    lemma_last_piece_spec(exmo_topic(s), ':', prefix, pair);
    law_pair_round_trip(s, '_');
}

/// Writing an EXMO symbol as a pair and reading it back gives the symbol,
/// when its currencies are normal and the base holds no `_`.
pub proof fn law_exmo_pair_round_trip(s: SymbolView)
    requires
        s.eg == exmo_name(),
        normal_currency(s.bs),
        normal_currency(s.qt),
        !s.bs.contains('_'),
    ensures
        symbol_of_pair(pair_text(s, '_'), exmo_name(), '_') == Some(s),
{
    law_pair_round_trip(s, '_');
}

/// Writing any EXMO symbol as a pair and reading it back gives the EXMO
/// symbol of its upper-cased currencies, when the upper-cased base holds no
/// `_`; on ASCII currencies this is the symbol with both currencies
/// upper-cased.
pub proof fn law_exmo_pair_round_trip_upper(s: SymbolView)
    requires
        !upper(s.bs).contains('_'),
    ensures
        symbol_of_pair(pair_text(s, '_'), exmo_name(), '_') == Some(
            SymbolView { eg: exmo_name(), bs: upper(upper(s.bs)), qt: upper(upper(s.qt)) },
        ),
        all_ascii(s.bs) && all_ascii(s.qt) ==> symbol_of_pair(pair_text(s, '_'), exmo_name(), '_') == Some(
            SymbolView { eg: exmo_name(), bs: ascii_upper(s.bs), qt: ascii_upper(s.qt) },
        ),
{
    let p = pair_text(s, '_');
    assert(splits_at_first(p, '_', upper(s.bs), upper(s.qt)));
    lemma_split_once_spec(p, '_', upper(s.bs), upper(s.qt));
    if all_ascii(s.bs) && all_ascii(s.qt) {
        lemma_ascii_upper_idempotent(s.bs);
        lemma_ascii_upper_idempotent(s.qt);
    }
    assert(symbol_of_pair(p, exmo_name(), '_') =~= Some(
        SymbolView { eg: exmo_name(), bs: upper(upper(s.bs)), qt: upper(upper(s.qt)) },
    ));
}

/// The EXMO depth subscription goes to `wss://ws-api.exmo.com:443/v1/public/`
/// (the default `wss` port) on the topic `spot/order_book_snapshots:` of the
/// symbol's pair, written `BASE_QUOTE`.
pub proof fn law_exmo_topic_url(s: SymbolView)
    ensures
        exmo_topic(s) == "spot/order_book_snapshots:"@ + pair_text(s, '_'),
        exmo_topic_url_text(s) == "wss://ws-api.exmo.com:443/v1/public/spot/order_book_snapshots:"@ + pair_text(
            s,
            '_',
        ),
        pair_text(s, '_') == upper(s.bs) + seq!['_'] + upper(s.qt),
        exmo_subscribe_message(s) == "{\"id\":1,\"method\":\"subscribe\",\"topics\":["@ + json_string_literal(
            "spot/order_book_snapshots:"@ + upper(s.bs) + seq!['_'] + upper(s.qt),
        ) + "]}"@,
{
    assert("spot/order_book_snapshots:"@ + pair_text(s, '_') =~= "spot/order_book_snapshots:"@ + upper(s.bs)
        + seq!['_'] + upper(s.qt));
    reveal_strlit("wss://ws-api.exmo.com:443/v1/public/");
    reveal_strlit("spot/order_book_snapshots:");
    reveal_strlit("wss://ws-api.exmo.com:443/v1/public/spot/order_book_snapshots:");
    assert("wss://ws-api.exmo.com:443/v1/public/"@ + ("spot/order_book_snapshots:"@ + pair_text(s, '_'))
        =~= "wss://ws-api.exmo.com:443/v1/public/spot/order_book_snapshots:"@ + pair_text(s, '_'));
}

} // verus!
