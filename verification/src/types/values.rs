//! Plain values: bot configuration and state, credentials, orders, market data.
use vstd::prelude::*;
use crate::market::liq::Depth;
use crate::market::symbol::Symbol;

verus! {

/// The name of a bot; its configuration file is named after it.
pub type BotName = String;

/// The identifier an exchange gives to a placed order.
pub type OrderId = String;

/// Which kind of bot a configuration is for.
#[derive(Debug, Clone, Copy, PartialEq, Eq)]
pub enum BotKind {
    Single,
    Multi,
}

/// Exchange credentials.
#[derive(Debug)]
pub struct Cred {
    pub api_key: String,
    pub api_secret: String,
}

impl Cred {
    /// Empty credentials.
    pub fn empty() -> (res: Cred)
        ensures
            res.api_key@.len() == 0,
            res.api_secret@.len() == 0,
    {
        Cred { api_key: String::new(), api_secret: String::new() }
    }
}

/// Configuration of a bot trading one symbol.
#[derive(Debug)]
pub struct SingleBotConfig {
    pub symbol: Symbol,
    /// Pause between two trading iterations, in milliseconds.
    pub trade_iter_interval_millis: u64,
}

/// Configuration of a bot trading several symbols.
#[derive(Debug)]
pub struct MultiBotConfig {
    pub symbols: Vec<Symbol>,
    pub trade_iter_interval_millis: u64,
}

/// A bot configuration of either kind.
#[derive(Debug)]
pub enum BotConfig {
    Single(SingleBotConfig),
    Multi(MultiBotConfig),
}

/// The contents of a [`BotConfig`].
pub enum BotConfigView {
    Single(SingleBotConfig),
    Multi(Seq<Symbol>, u64),
}

impl View for BotConfig {
    type V = BotConfigView;

    open spec fn view(&self) -> BotConfigView {
        match self {
            BotConfig::Single(c) => BotConfigView::Single(*c),
            BotConfig::Multi(c) => BotConfigView::Multi(c.symbols@, c.trade_iter_interval_millis),
        }
    }
}

impl SingleBotConfig {
    /// A copy of this configuration.
    pub fn duplicate(&self) -> (res: SingleBotConfig)
        ensures
            res == *self,
    {
        SingleBotConfig {
            symbol: self.symbol.duplicate(),
            trade_iter_interval_millis: self.trade_iter_interval_millis,
        }
    }
}

impl BotConfig {
    /// A copy of this configuration.
    pub fn duplicate(&self) -> (res: BotConfig)
        ensures
            res@ == self@,
    {
        match self {
            BotConfig::Single(c) => BotConfig::Single(c.duplicate()),
            BotConfig::Multi(c) => {
                let mut symbols: Vec<Symbol> = Vec::new();
                let mut i: usize = 0;
                while i < c.symbols.len()
                    invariant
                        i <= c.symbols@.len(),
                        symbols@ == c.symbols@.subrange(0, i as int),
                    decreases c.symbols.len() - i,
                {
                    symbols.push(c.symbols[i].duplicate());
                    i = i + 1;
                }
                proof {
                    assert(symbols@ =~= c.symbols@);
                }
                BotConfig::Multi(
                    MultiBotConfig { symbols, trade_iter_interval_millis: c.trade_iter_interval_millis },
                )
            },
        }
    }
}

/// The running state of a single-pair bot.
#[derive(Debug, Clone, Copy)]
pub struct SingleBotState {
    /// Number of trading iterations started.
    pub iter: u64,
}

impl SingleBotState {
    /// The state before the first iteration.
    pub fn new() -> (res: SingleBotState)
        ensures
            res.iter == 0,
    {
        SingleBotState { iter: 0 }
    }
}

/// Side of an order.
#[derive(Debug, Clone, Copy, PartialEq, Eq)]
pub enum Side {
    Buy,
    Sell,
}

/// A limit order to place: price and amount, side, and creation time.
#[derive(Debug, Clone, Copy)]
pub struct OrderToPlace {
    pub liq: crate::market::liq::Liq,
    pub side: Side,
    /// Creation time, in milliseconds since the Unix epoch.
    pub ts_millis: i64,
}

/// Market data read from an exchange websocket message.
#[derive(Debug)]
pub enum WsMarketData {
    /// A message that carries no market data the bot uses; the text
    /// describes the raw message.
    Unknown(String),
    /// Changes to the order book, to merge into the last snapshot.
    DepthDiff(Depth),
    /// A full order book replacing the previous one.
    DepthSnapshot(Depth),
}

/// What a strategy decides in one iteration.
#[derive(Debug)]
pub struct StrategyCalc {
    pub orders_to_place: Vec<OrderToPlace>,
    pub order_ids_to_cancel: Vec<OrderId>,
    /// Free-form details, as JSON text.
    pub meta: String,
}

/// The exchange data a spread strategy works on.
#[derive(Debug)]
pub struct SpreadExgData {
    pub depth: Depth,
}

} // verus!
