use mm::actors::ws_datastore_actor::datastore_actor_name;
use mm::infra::actors::ws_market_data_provider_actor::adapter::WsMarketDataProviderActorAdapter;
use mm::infra::connectors::exmo::{DepthRoute, Exmo};
use mm::infra::connectors::exmo_ws::{ExmoDepthStreamed, ExmoWs};
use mm::infra::connectors::okx::Okx;
use mm::infra::connectors::okx_ws::{OkxDepthData, OkxDepthStreamed, OkxWs};
use mm::infra::connectors::pairs::ConnectorError;
use mm::market::decimal::parse_decimal;
use mm::market::liq::{Depth, LevelError, Liq};
use mm::market::symbol::Symbol;
use mm::types::values::{Cred, WsMarketData};
use std::time::Duration;

fn sym(text: &str) -> Symbol {
    Symbol::try_from_text(text).unwrap()
}

fn provider() -> WsMarketDataProviderActorAdapter {
    WsMarketDataProviderActorAdapter {
        name: "ws_market_data_provider".to_string(),
        merge_diffs_every: Duration::from_secs(5),
        export_to_external_kvstore_every: Duration::from_secs(10),
    }
}

fn num(s: &str) -> i128 {
    parse_decimal(s).unwrap()
}

fn levels(v: &[(&str, &str)]) -> Vec<Vec<String>> {
    v.iter().map(|(p, a)| vec![p.to_string(), a.to_string()]).collect()
}

#[test]
fn exmo_depth_subscription() {
    let s = sym("exmo:BTC/USDT");
    let params = Exmo::try_depth_subscribe_params(&s).unwrap();
    assert!(params.topic_url.starts_with("wss://ws-api.exmo.com"));
    assert!(params.topic_url.ends_with("/v1/public/spot/order_book_snapshots:BTC_USDT"));
    assert_eq!(
        params.on_connect_send.unwrap(),
        r#"{"id":1,"method":"subscribe","topics":["spot/order_book_snapshots:BTC_USDT"]}"#
    );
}

#[test]
fn exmo_pairs() {
    assert_eq!(Exmo::symbol_to_pair(&sym("exmo:BTC/USD")), "BTC_USD");
    assert_eq!(Exmo::symbol_to_pair(&Symbol { eg: "exmo".into(), bs: "eth".into(), qt: "usdt".into() }), "ETH_USDT");
    let s = Exmo::pair_to_symbol("BTC_USD").unwrap();
    assert_eq!(s.to_string(), "exmo:BTC/USD");
    let s = Exmo::pair_to_symbol("a_b_c").unwrap();
    assert_eq!((s.bs.as_str(), s.qt.as_str()), ("A", "B_C"));
    assert_eq!(Exmo::pair_to_symbol("BTCUSD").unwrap_err(), ConnectorError::BadPair("BTCUSD".into()));
}

#[test]
fn exmo_pair_round_trip() {
    let s = sym("exmo:BTC/USDT");
    let back = Exmo::pair_to_symbol(&Exmo::symbol_to_pair(&s)).unwrap();
    assert!(back.same_as(&s));
}

#[test]
fn okx_pairs() {
    assert_eq!(Okx::symbol_to_pair(&sym("okx:BTC/USD")), "BTC-USD");
    let s = Okx::pair_to_symbol("btc-usd").unwrap();
    assert_eq!(s.to_string(), "okx:BTC/USD");
    assert_eq!(Okx::pair_to_symbol("BTC_USD").unwrap_err(), ConnectorError::BadPair("BTC_USD".into()));
}

#[test]
fn exmo_topics() {
    let s = sym("exmo:ETH/USDT");
    let topic = ExmoWs::symbol_to_depth_subscribe_topic(&s);
    assert_eq!(topic, "spot/order_book_snapshots:ETH_USDT");
    assert!(ExmoWs::symbol_from_topic(&topic).unwrap().same_as(&s));
    assert!(ExmoWs::symbol_from_topic("ETH_USDT").unwrap().same_as(&s));
    assert_eq!(
        ExmoWs::symbol_from_topic("spot/order_book_snapshots:ETHUSDT").unwrap_err(),
        ConnectorError::BadTopic("spot/order_book_snapshots:ETHUSDT".into())
    );
    let url = ExmoWs::try_depth_subscribe_topic_url(&s).unwrap();
    assert_eq!(url, ExmoWs::depth_subscribe_topic_url(&s));
    assert!(url.ends_with("spot/order_book_snapshots:ETH_USDT"));
}

#[test]
fn exmo_routes_depth_messages() {
    let d = Depth { asks: vec![Liq::from_pa(1, 1)], bids: vec![] };
    match Exmo::route_depth_message("spot/order_book_snapshots:ETH_USDT", "update", d).unwrap() {
        DepthRoute::AddDiff { store, depth } => {
            assert_eq!(store, "exmo:ETH/USDT:ws_datastore");
            assert_eq!(depth.asks, vec![Liq::from_pa(1, 1)]);
        }
        other => panic!("{other:?}"),
    }
    match Exmo::route_depth_message("x:A_B", "snapshot", Depth::new()).unwrap() {
        DepthRoute::SetSnapshot { store, .. } => assert_eq!(store, "exmo:A/B:ws_datastore"),
        other => panic!("{other:?}"),
    }
    assert_eq!(
        Exmo::route_depth_message("x:A_B", "delete", Depth::new()).unwrap_err(),
        ConnectorError::BadEvent("delete".into())
    );
    assert_eq!(
        Exmo::route_depth_message("x:AB", "update", Depth::new()).unwrap_err(),
        ConnectorError::BadTopic("x:AB".into())
    );
}

#[test]
fn datastore_names() {
    assert_eq!(datastore_actor_name(&sym("exmo:BTC/USDT")), "exmo:BTC/USDT:ws_datastore");
}

#[test]
fn exmo_ws_parse() {
    let msg = |event: &str| ExmoDepthStreamed {
        event: event.to_string(),
        ask: levels(&[("2.5", "1")]),
        bid: levels(&[("2", "3"), ("1.5", "0")]),
    };
    match ExmoWs::ws_parse_fn(Some(msg("update")), "raw".into()) {
        Ok(WsMarketData::DepthDiff(d)) => {
            assert_eq!(d.asks, vec![Liq::from_pa(num("2.5"), num("1"))]);
            assert_eq!(d.bids, vec![Liq::from_pa(num("2"), num("3")), Liq::from_pa(num("1.5"), num("0"))]);
        }
        other => panic!("{other:?}"),
    }
    assert!(matches!(ExmoWs::ws_parse_fn(Some(msg("snapshot")), "raw".into()), Ok(WsMarketData::DepthSnapshot(_))));
    match ExmoWs::ws_parse_fn(Some(msg("other")), "raw-other".into()) {
        Ok(WsMarketData::Unknown(t)) => assert_eq!(t, "raw-other"),
        other => panic!("{other:?}"),
    }
    match ExmoWs::ws_parse_fn(None, "raw-none".into()) {
        Ok(WsMarketData::Unknown(t)) => assert_eq!(t, "raw-none"),
        other => panic!("{other:?}"),
    }
    let exp = ExmoDepthStreamed { event: "update".into(), ask: levels(&[("1e2", "25E-1")]), bid: vec![] };
    match ExmoWs::ws_parse_fn(Some(exp), "raw".into()) {
        Ok(WsMarketData::DepthDiff(d)) => assert_eq!(d.asks, vec![Liq::from_pa(num("100"), num("2.5"))]),
        other => panic!("{other:?}"),
    }
    let bad = ExmoDepthStreamed { event: "update".into(), ask: levels(&[("abc", "1")]), bid: vec![] };
    match ExmoWs::ws_parse_fn(Some(bad), "raw".into()) {
        Err(LevelError::BadNumber(t)) => assert_eq!(t, "abc"),
        other => panic!("{other:?}"),
    }
}

#[test]
fn okx_ws_parse() {
    let msg = |action: &str| OkxDepthStreamed {
        action: action.to_string(),
        data: vec![OkxDepthData { asks: levels(&[("10", "1")]), bids: levels(&[("9", "2")]) }],
    };
    match OkxWs::ws_parse_fn(Some(msg("snapshot")), "raw".into()) {
        Ok(WsMarketData::DepthSnapshot(d)) => {
            assert_eq!(d.asks, vec![Liq::from_pa(num("10"), num("1"))]);
            assert_eq!(d.bids, vec![Liq::from_pa(num("9"), num("2"))]);
        }
        other => panic!("{other:?}"),
    }
    assert!(matches!(OkxWs::ws_parse_fn(Some(msg("update")), "raw".into()), Ok(WsMarketData::DepthDiff(_))));
    assert!(matches!(OkxWs::ws_parse_fn(Some(msg("x")), "raw".into()), Ok(WsMarketData::Unknown(_))));
    let two = OkxDepthStreamed {
        action: "update".into(),
        data: vec![
            OkxDepthData { asks: levels(&[("10", "1")]), bids: vec![] },
            OkxDepthData { asks: levels(&[("bad", "1")]), bids: vec![] },
        ],
    };
    match OkxWs::ws_parse_fn(Some(two), "raw".into()) {
        Ok(WsMarketData::DepthDiff(d)) => assert_eq!(d.asks, vec![Liq::from_pa(num("10"), num("1"))]),
        other => panic!("{other:?}"),
    }
    let huge = OkxDepthStreamed {
        action: "snapshot".into(),
        data: vec![OkxDepthData { asks: vec![], bids: levels(&[("9", "1e3000000000")]) }],
    };
    assert!(matches!(OkxWs::ws_parse_fn(Some(huge), "raw".into()), Err(LevelError::BadNumber(_))));
    assert!(OkxWs::message_is_ok(&Some(msg("update"))));
    assert!(!OkxWs::message_is_ok(&Some(OkxDepthStreamed { action: "update".into(), data: vec![] })));
}

#[test]
fn okx_subscription() {
    let okx = Okx::new(Cred::empty(), sym("okx:BTC/USDT"));
    let ws = OkxWs::new(okx, provider());
    let p = ws.try_on_init_subscribe_ws_public(1700000000123).unwrap();
    assert_eq!(p.topic_url, "wss://ws.okx.com:8443/ws/v5/public");
    assert_eq!(
        p.on_connect_send.unwrap(),
        r#"{"args":[{"channel":"books","instId":"BTC-USDT"}],"id":"1700000000123","op":"subscribe"}"#
    );
    assert_eq!(OkxWs::subscribe_message(&sym("okx:A/B"), -5), r#"{"args":[{"channel":"books","instId":"A-B"}],"id":"-5","op":"subscribe"}"#);
    assert_eq!(OkxWs::try_public_subscribe_url().unwrap(), "wss://ws.okx.com:8443/ws/v5/public");
}

#[test]
fn connectors_keep_creds_and_symbol() {
    let exmo = Exmo::new(Cred::empty(), sym("exmo:BTC/USDT"));
    let mut ws = ExmoWs::new(exmo, provider());
    ws.set_symbol(sym("exmo:ETH/USDT"));
    ws.set_creds(Cred { api_key: "k".into(), api_secret: "s".into() });
    assert_eq!(ws.exmo_connector.symbol.to_string(), "exmo:ETH/USDT");
    assert_eq!(ws.exmo_connector.creds.api_key, "k");
    let p = ws.try_on_init_subscribe_ws_public().unwrap();
    assert!(p.on_connect_send.unwrap().contains("ETH_USDT"));
    assert_eq!(ws.ws_market_data_provider.name(), "ws_market_data_provider");
}
