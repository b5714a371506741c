use mm::infra::actors::ws_market_data_provider_actor::handler::{
    on_ws_session_event, WsSessionAction, WsSessionEvent, RESUBSCRIBE_AFTER_MILLIS,
};
use mm::infra::actors::ws_market_data_provider_actor::types::WsSubscribeParams;
use mm::bots::exchanges::{exchange_kind, exchange_name, ExchangeKind};
use mm::bots::singlepairbot::{config_from_fetch, BotError, ExgAction, SinglePairBot};
use mm::domain::strategies::default_spread_strategy::DefaultSpreadStrategy;
use mm::domain::strategies::spread_strategy_calculator::SpreadStrategyCalculator;
use mm::infra::actors::ws_market_data_provider_actor::handler::{on_ws_market_data, WsMsgOutcome};
use mm::infra::stores::default_ws_market_data_store::DefaultWsMarketDataStore;
use mm::infra::stores::ws_datastore::WsDatastore;
use mm::market::liq::{Depth, Liq};
use mm::market::symbol::Symbol;
use mm::types::traits::{SpreadStrategist, StrategyCalculator};
use mm::types::values::{BotConfig, MultiBotConfig, OrderToPlace, Side, SingleBotConfig, SpreadExgData, StrategyCalc, WsMarketData};

fn single(sym: &str, ms: u64) -> BotConfig {
    BotConfig::Single(SingleBotConfig { symbol: Symbol::try_from_text(sym).unwrap(), trade_iter_interval_millis: ms })
}

type Bot = SinglePairBot<SpreadStrategyCalculator, (), (), ()>;

fn bot() -> Bot {
    SinglePairBot::try_new(&"exmo_btc".to_string(), Ok(Some(single("exmo:BTC/USDT", 100))), SpreadStrategyCalculator, (), (), ())
        .unwrap()
}

#[test]
fn config_from_fetch_takes_single_configs_only() {
    assert!(matches!(config_from_fetch(Err("down".into())), Err(BotError::ProviderFailed(e)) if e == "down"));
    assert!(matches!(config_from_fetch(Ok(None)), Err(BotError::NoConfig)));
    let multi = BotConfig::Multi(MultiBotConfig { symbols: vec![], trade_iter_interval_millis: 1 });
    assert!(matches!(config_from_fetch(Ok(Some(multi))), Err(BotError::BadConfig)));
    assert_eq!(config_from_fetch(Ok(Some(single("exmo:BTC/USDT", 5)))).unwrap().trade_iter_interval_millis, 5);
}

#[test]
fn new_bot_starts_at_iteration_zero() {
    let b = bot();
    assert_eq!(b.name(), "exmo_btc");
    assert_eq!(b.state().iter, 0);
    assert_eq!(b.config().trade_iter_interval_millis, 100);
    assert_eq!(b.symbol_to_trade().to_string(), "exmo:BTC/USDT");
    assert!(SinglePairBot::<(), (), (), ()>::try_new(&"x".to_string(), Ok(None), (), (), (), ()).is_err());
}

#[test]
fn failed_config_update_keeps_the_config() {
    let mut b = bot();
    assert!(matches!(b.update_config(Err("io".into())), Some(BotError::ProviderFailed(_))));
    assert_eq!(b.config().trade_iter_interval_millis, 100);
    assert!(b.update_config(Ok(None)).is_some());
    assert_eq!(b.config().trade_iter_interval_millis, 100);
    assert!(b.update_config(Ok(Some(single("exmo:ETH/USDT", 200)))).is_none());
    assert_eq!(b.config().trade_iter_interval_millis, 200);
    assert_eq!(b.config().symbol.to_string(), "exmo:ETH/USDT");
}

#[test]
fn each_iteration_is_counted_once() {
    let mut b = bot();
    assert_eq!(b.begin_trade_iter(), "exmo_btc: exmo:BTC/USDT: trade_iter 1");
    assert_eq!(b.begin_trade_iter(), "exmo_btc: exmo:BTC/USDT: trade_iter 2");
    assert_eq!(b.state().iter, 2);
    assert_eq!(b.trade_state_key(), "exmo_btc:trade_state");
}

#[test]
fn k_iterations_count_k() {
    let mut b = bot();
    let start = b.state().iter;
    for _ in 0..7 {
        b.begin_trade_iter();
    }
    assert_eq!(b.state().iter, start + 7);
}

#[test]
fn actions_cancel_first_then_place() {
    let b = bot();
    let o = OrderToPlace { liq: Liq::from_pa(1, 2), side: Side::Buy, ts_millis: 0 };
    let calc = StrategyCalc { orders_to_place: vec![o], order_ids_to_cancel: vec!["a".into(), "b".into()], meta: String::new() };
    let actions = b.do_actions(&calc);
    assert_eq!(actions.len(), 3);
    assert!(matches!(&actions[0], ExgAction::Cancel(id) if id == "a"));
    assert!(matches!(&actions[1], ExgAction::Cancel(id) if id == "b"));
    assert!(matches!(&actions[2], ExgAction::Place(p) if p.liq == Liq::from_pa(1, 2) && p.side == Side::Buy));
}

#[test]
fn strategies_decide_nothing_yet() {
    let data = SpreadExgData { depth: Depth::new() };
    let c = StrategyCalculator::calc(&SpreadStrategyCalculator, &data).unwrap();
    assert!(c.orders_to_place.is_empty() && c.order_ids_to_cancel.is_empty());
    assert_eq!(c.meta, "\"{}\"");
    let c = SpreadStrategist::calc(&DefaultSpreadStrategy, &data).unwrap();
    assert_eq!(c.meta, "\"{}\"");
    let b = bot();
    assert!(b.calc(&SinglePairBot::<(), (), (), ()>::exg_data(Depth::new())).unwrap().orders_to_place.is_empty());
}

#[test]
fn exchange_from_bot_name() {
    assert_eq!(exchange_name("exmo_btc_usdt"), "exmo");
    assert_eq!(exchange_name("okx"), "okx");
    assert_eq!(exchange_kind("okx"), Some(ExchangeKind::Okx));
    assert_eq!(exchange_kind("exmo"), Some(ExchangeKind::Exmo));
    assert_eq!(exchange_kind("binance"), None);
}

#[test]
fn datastore_reads_back_its_snapshot() {
    let mut s = WsDatastore::new("store");
    assert_eq!(s.name(), "store");
    s.depth_set_snapshot(Depth { asks: vec![Liq::from_pa(2, 1), Liq::from_pa(3, 1)], bids: vec![Liq::from_pa(1, 1)] });
    let d = s.depth_get();
    assert_eq!(d.asks, vec![Liq::from_pa(2, 1), Liq::from_pa(3, 1)]);
    assert_eq!(d.bids, vec![Liq::from_pa(1, 1)]);
    s.depth_add_diff(Depth { asks: vec![Liq::from_pa(2, 0)], bids: vec![Liq::from_pa(1, 4)] });
    let d = s.depth_get();
    assert_eq!(d.asks, vec![Liq::from_pa(3, 1)]);
    assert_eq!(d.bids, vec![Liq::from_pa(1, 4)]);
}

#[test]
fn market_data_store_applies_ws_messages() {
    let mut store = DefaultWsMarketDataStore::new("market_datastore", 7u8);
    assert_eq!(store.export_key(), "market_datastore:depth");
    assert!(matches!(on_ws_market_data(&mut store, Err("bad".into())), WsMsgOutcome::ParseFailed(e) if e == "bad"));
    assert!(matches!(on_ws_market_data(&mut store, Ok(WsMarketData::Unknown("u".into()))), WsMsgOutcome::UnknownData(_)));
    let snap = Depth { asks: vec![Liq::from_pa(5, 1)], bids: vec![Liq::from_pa(4, 1)] };
    assert!(matches!(on_ws_market_data(&mut store, Ok(WsMarketData::DepthSnapshot(snap))), WsMsgOutcome::SnapshotSet));
    let diff = Depth { asks: vec![Liq::from_pa(6, 2)], bids: vec![] };
    assert!(matches!(on_ws_market_data(&mut store, Ok(WsMarketData::DepthDiff(diff))), WsMsgOutcome::DiffAdded));
    let d = store.depth_get();
    assert_eq!(d.asks, vec![Liq::from_pa(5, 1), Liq::from_pa(6, 2)]);
    assert_eq!(*store.external_kvstore_mut(), 7u8);
}

#[test]
fn ws_session_answers() {
    let with_msg = WsSubscribeParams { topic_url: "wss://x/".into(), on_connect_send: Some("hi".into()) };
    let without = WsSubscribeParams { topic_url: "wss://x/".into(), on_connect_send: None };
    assert_eq!(on_ws_session_event(&with_msg, WsSessionEvent::Connected), WsSessionAction::Send("hi".into()));
    assert_eq!(on_ws_session_event(&without, WsSessionEvent::Connected), WsSessionAction::Idle);
    assert_eq!(on_ws_session_event(&without, WsSessionEvent::Ping(vec![1, 2])), WsSessionAction::Pong(vec![1, 2]));
    assert_eq!(on_ws_session_event(&without, WsSessionEvent::Frame), WsSessionAction::Forward);
    assert_eq!(on_ws_session_event(&without, WsSessionEvent::FrameError("e".into())), WsSessionAction::Report("e".into()));
    assert_eq!(on_ws_session_event(&without, WsSessionEvent::Closed), WsSessionAction::Resubscribe(RESUBSCRIBE_AFTER_MILLIS));
    assert_eq!(RESUBSCRIBE_AFTER_MILLIS, 5000);
    assert_eq!(
        on_ws_session_event(&without, WsSessionEvent::ConnectFailed("x".into())),
        WsSessionAction::Resubscribe(5000)
    );
}

#[test]
fn store_snapshot_is_kept_until_diffs_are_merged() {
    let mut s = WsDatastore::new("s");
    s.depth_add_diff(Depth { asks: vec![Liq::from_pa(4, 1)], bids: vec![] });
    s.depth_set_snapshot(Depth { asks: vec![Liq::from_pa(5, 1)], bids: vec![] });
    s.depth_merge_diffs();
    let d = s.depth_get();
    assert_eq!(d.asks, vec![Liq::from_pa(4, 1), Liq::from_pa(5, 1)]);
}
