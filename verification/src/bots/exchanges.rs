//! Which exchange a bot trades on, from the bot's name.
use vstd::prelude::*;
use crate::text::{split_once, split_once_spec, same_text};

verus! {

/// The exchanges a bot can trade on.
#[derive(Debug, Clone, Copy, PartialEq, Eq)]
pub enum ExchangeKind {
    Okx,
    Exmo,
}

/// The exchange name of a bot: its name up to the first `_` (all of it
/// without one).
pub open spec fn exchange_name_spec(bot_name: Seq<char>) -> Seq<char> {
    match split_once_spec(bot_name, '_') {
        Some((a, _b)) => a,
        None => bot_name,
    }
}

/// The exchange a name denotes: `okx` or `exmo`.
pub open spec fn exchange_kind_spec(name: Seq<char>) -> Option<ExchangeKind> {
    if name == "okx"@ {
        Some(ExchangeKind::Okx)
    } else if name == "exmo"@ {
        Some(ExchangeKind::Exmo)
    } else {
        None
    }
}

/// The exchange name of `bot_name`: `exmo_btc_usdt` gives `exmo`.
pub fn exchange_name(bot_name: &str) -> (res: String)
    ensures
        res@ == exchange_name_spec(bot_name@),
{
    match split_once(bot_name, '_') {
        Some((a, _b)) => a,
        None => {
            let mut s = String::new();
            s.append(bot_name);
            s
        },
    }
}

/// The exchange `name` denotes, if any.
pub fn exchange_kind(name: &str) -> (res: Option<ExchangeKind>)
    ensures
        res == exchange_kind_spec(name@),
{
    if same_text(name, "okx") {
        Some(ExchangeKind::Okx)
    } else if same_text(name, "exmo") {
        Some(ExchangeKind::Exmo)
    } else {
        None
    }
}

} // verus!
