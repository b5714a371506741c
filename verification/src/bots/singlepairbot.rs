//! The single-pair bot: the decisions of its trading loop. Each iteration
//! refreshes the configuration, fetches the order book, asks the strategy,
//! cancels and places orders, and exports its state; the waiting and the
//! exchange calls are made by the caller, which hands the results back.
use vstd::prelude::*;
use vstd::string::*;
use crate::market::liq::Depth;
use crate::market::symbol::{Symbol, symbol_text};
use crate::text::{nat_text, u64_text};
use crate::types::traits::{StrategyCalculator, StrategyError};
use crate::types::values::{
    BotConfig, BotName, OrderId, OrderToPlace, SingleBotConfig, SingleBotState, SpreadExgData, StrategyCalc,
};

verus! {

/// Why the bot could not get its configuration.
#[derive(Debug)]
pub enum BotError {
    /// The configuration provider failed; what it reported.
    ProviderFailed(String),
    /// The provider has no configuration for the bot.
    NoConfig,
    /// The configuration is not a single-pair configuration.
    BadConfig,
}

/// One exchange call the bot makes.
#[derive(Debug)]
pub enum ExgAction {
    Cancel(OrderId),
    Place(OrderToPlace),
}

/// The single-pair configuration that a provider's answer gives: its error,
/// no configuration, or a configuration of another kind are errors.
pub open spec fn config_from_fetch_spec(fetched: Result<Option<BotConfig>, String>, res: Result<SingleBotConfig, BotError>) -> bool {
    match fetched {
        Err(e) => res matches Err(BotError::ProviderFailed(t)) && t@ == e@,
        Ok(None) => res matches Err(BotError::NoConfig),
        Ok(Some(BotConfig::Multi(_))) => res matches Err(BotError::BadConfig),
        Ok(Some(BotConfig::Single(c))) => res == Ok::<SingleBotConfig, BotError>(c),
    }
}

/// The calls of one iteration: every cancellation, in order, then every
/// placement, in order.
pub open spec fn planned_actions(calc: StrategyCalc, actions: Seq<ExgAction>) -> bool {
    let n = calc.order_ids_to_cancel@.len();
    let m = calc.orders_to_place@.len();
    &&& actions.len() == n + m
    &&& forall|i: int| 0 <= i < n ==> #[trigger] actions[i] == ExgAction::Cancel(calc.order_ids_to_cancel@[i])
    &&& forall|j: int| 0 <= j < m ==> #[trigger] actions[n + j] == ExgAction::Place(calc.orders_to_place@[j])
}

/// The single-pair bot: its name, configuration and state, with the strategy
/// `S`, exchange connector `E`, configuration provider `C` and external
/// store `K` that it works with.
pub struct SinglePairBot<S, E, C, K> {
    pub name: BotName,
    pub config: SingleBotConfig,
    pub state: SingleBotState,
    pub strategy_calculator: S,
    pub exg_connector: E,
    pub config_provider: C,
    pub external_kvstore: K,
}

/// The single-pair configuration that a provider's answer gives.
pub fn config_from_fetch(fetched: Result<Option<BotConfig>, String>) -> (res: Result<SingleBotConfig, BotError>)
    ensures
        config_from_fetch_spec(fetched, res),
{
    match fetched {
        Err(e) => Err(BotError::ProviderFailed(e)),
        Ok(None) => Err(BotError::NoConfig),
        Ok(Some(BotConfig::Multi(_))) => Err(BotError::BadConfig),
        Ok(Some(BotConfig::Single(c))) => Ok(c),
    }
}

impl<S, E, C, K> SinglePairBot<S, E, C, K> {
    pub open spec fn bot_name(&self) -> Seq<char> {
        self.name@
    }

    pub open spec fn bot_config(&self) -> SingleBotConfig {
        self.config
    }

    pub open spec fn bot_state(&self) -> SingleBotState {
        self.state
    }

    /// A bot named `name` with the configuration of the provider's answer
    /// `fetched`, in its initial state; an error when the answer gives no
    /// single-pair configuration.
    pub fn try_new(
        name: &BotName,
        fetched: Result<Option<BotConfig>, String>,
        strategy: S,
        exg_connector: E,
        config_provider: C,
        external_kvstore: K,
    ) -> (res: Result<Self, BotError>)
        ensures
            match res {
                Ok(bot) => {
                    &&& config_from_fetch_spec(fetched, Ok(bot.bot_config()))
                    &&& bot.bot_name() == name@
                    &&& bot.bot_state().iter == 0
                    &&& bot.strategy_calculator == strategy
                    &&& bot.exg_connector == exg_connector
                    &&& bot.config_provider == config_provider
                    &&& bot.external_kvstore == external_kvstore
                },
                Err(e) => config_from_fetch_spec(fetched, Err(e)),
            },
    {
        let config = match config_from_fetch(fetched) {
            Ok(c) => c,
            Err(e) => {
                return Err(e);
            },
        };
        Ok(SinglePairBot {
            name: name.clone(),
            config,
            state: SingleBotState::new(),
            strategy_calculator: strategy,
            exg_connector,
            config_provider,
            external_kvstore,
        })
    }

    pub fn name(&self) -> (res: &str)
        ensures
            res@ == self.bot_name(),
    {
        self.name.as_str()
    }

    pub fn config(&self) -> (res: &SingleBotConfig)
        ensures
            *res == self.bot_config(),
    {
        &self.config
    }

    pub fn state(&self) -> (res: SingleBotState)
        ensures
            res == self.bot_state(),
    {
        self.state
    }

    /// The symbol the exchange connector is set to when the bot starts.
    pub fn symbol_to_trade(&self) -> (res: Symbol)
        ensures
            res == self.bot_config().symbol,
    {
        self.config.symbol.duplicate()
    }

    /// Takes the provider's answer: a single-pair configuration replaces the
    /// current one; on any error the current configuration stays in use and
    /// the error is given back to be reported.
    pub fn update_config(&mut self, fetched: Result<Option<BotConfig>, String>) -> (res: Option<BotError>)
        ensures
            final(self).bot_name() == old(self).bot_name(),
            final(self).bot_state() == old(self).bot_state(),
            final(self).strategy_calculator == old(self).strategy_calculator,
            final(self).exg_connector == old(self).exg_connector,
            final(self).config_provider == old(self).config_provider,
            final(self).external_kvstore == old(self).external_kvstore,
            match res {
                None => config_from_fetch_spec(fetched, Ok(final(self).bot_config())),
                Some(e) => config_from_fetch_spec(fetched, Err(e)) && final(self).bot_config()
                    == old(self).bot_config(),
            },
    {
        match config_from_fetch(fetched) {
            Ok(c) => {
                self.config = c;
                None
            },
            Err(e) => Some(e),
        }
    }

    /// Starts an iteration: counts it and gives the text that names it,
    /// `<name>: <symbol>: trade_iter <n>`.
    pub fn begin_trade_iter(&mut self) -> (res: String)
        requires
            old(self).bot_state().iter < u64::MAX,
        ensures
            final(self).bot_state().iter == old(self).bot_state().iter + 1,
            final(self).bot_name() == old(self).bot_name(),
            final(self).bot_config() == old(self).bot_config(),
            final(self).strategy_calculator == old(self).strategy_calculator,
            final(self).exg_connector == old(self).exg_connector,
            final(self).config_provider == old(self).config_provider,
            final(self).external_kvstore == old(self).external_kvstore,
            res@ == old(self).bot_name() + ": "@ + symbol_text(old(self).bot_config().symbol@)
                + ": trade_iter "@ + nat_text(final(self).bot_state().iter as nat),
    {
        self.state.iter = self.state.iter + 1;
        let mut ctx = self.name.clone();
        ctx.append(": ");
        let sym = self.config.symbol.to_string();
        ctx.append(sym.as_str());
        ctx.append(": trade_iter ");
        let n = u64_text(self.state.iter);
        ctx.append(n.as_str());
        ctx
    }

    /// The data the strategy works on: the fetched order book.
    pub fn exg_data(depth: Depth) -> (res: SpreadExgData)
        ensures
            res.depth == depth,
    {
        SpreadExgData { depth }
    }

    /// The exchange calls of an iteration: every cancellation, in order,
    /// then every placement, in order. A failed call is reported and the
    /// others are still made.
    pub fn do_actions(&self, calc: &StrategyCalc) -> (res: Vec<ExgAction>)
        ensures
            planned_actions(*calc, res@),
    {
        let mut actions: Vec<ExgAction> = Vec::new();
        let n = calc.order_ids_to_cancel.len();
        let mut i: usize = 0;
        while i < n
            invariant
                n == calc.order_ids_to_cancel@.len(),
                i <= n,
                actions@.len() == i,
                forall|k: int| 0 <= k < i ==> #[trigger] actions@[k] == ExgAction::Cancel(calc.order_ids_to_cancel@[k]),
            decreases n - i,
        {
            actions.push(ExgAction::Cancel(calc.order_ids_to_cancel[i].clone()));
            i = i + 1;
        }
        let m = calc.orders_to_place.len();
        let mut j: usize = 0;
        while j < m
            invariant
                n == calc.order_ids_to_cancel@.len(),
                m == calc.orders_to_place@.len(),
                j <= m,
                actions@.len() == n + j,
                forall|k: int| 0 <= k < n ==> #[trigger] actions@[k] == ExgAction::Cancel(calc.order_ids_to_cancel@[k]),
                forall|k: int| 0 <= k < j ==> #[trigger] actions@[n + k] == ExgAction::Place(calc.orders_to_place@[k]),
            decreases m - j,
        {
            let o = calc.orders_to_place[j];
            actions.push(ExgAction::Place(o));
            proof {
                assert(actions@[n + j] == ExgAction::Place(o));
            }
            j = j + 1;
        }
        actions
    }

    /// The key the bot's trade state is exported under: `<name>:trade_state`.
    pub fn trade_state_key(&self) -> (res: String)
        ensures
            res@ == self.bot_name() + ":trade_state"@,
    {
        let mut key = self.name.clone();
        key.append(":trade_state");
        key
    }
}

impl<S: StrategyCalculator<SpreadExgData>, E, C, K> SinglePairBot<S, E, C, K> {
    /// Asks the strategy what to do with the exchange data: the result is
    /// what the strategy's own `calc` gives for that data.
    pub fn calc(&self, exg_data: &SpreadExgData) -> (res: Result<StrategyCalc, StrategyError>)
        ensures
            call_ensures(S::calc, (&self.strategy_calculator, exg_data), res),
    {
        self.strategy_calculator.calc(exg_data)
    }
}

/// Each iteration started counts one: after the calls of
/// `begin_trade_iter` that took the bot through `states` (each call's state
/// one more than the last), the count has grown by the number of calls.
pub proof fn law_trade_iters_count(states: Seq<SingleBotState>)
    requires
        states.len() > 0,
        forall|i: int| 0 <= i < states.len() - 1 ==> #[trigger] states[i + 1].iter == states[i].iter + 1,
    ensures
        states.last().iter == states[0].iter + (states.len() - 1),
    decreases states.len(),
{
    if states.len() > 1 {
        let init = states.drop_last();
        assert forall|i: int| 0 <= i < init.len() - 1 implies #[trigger] init[i + 1].iter == init[i].iter + 1 by {
            assert(init[i + 1] == states[i + 1]);
            assert(init[i] == states[i]);
        }
        law_trade_iters_count(init);
        let k: int = states.len() - 2;
        assert(states[k + 1].iter == states[k].iter + 1);
        assert(init.last() == states[k]);
    }
}

} // verus!
