//! The OKX exchange: pairs `BASE-QUOTE`.
use vstd::prelude::*;
use vstd::string::*;
use crate::infra::connectors::pairs::{
    ConnectorError, law_pair_round_trip, normal_currency, pair_of_symbol, pair_text, symbol_of_pair,
    symbol_of_pair_text,
};
use crate::market::symbol::{Symbol, SymbolView};
use crate::types::values::Cred;

verus! {

/// The OKX connector: credentials and the symbol traded.
#[derive(Debug)]
pub struct Okx {
    pub creds: Cred,
    pub symbol: Symbol,
}

/// The exchange name OKX symbols carry.
pub open spec fn okx_name() -> Seq<char> {
    "okx"@
}

impl Okx {
    pub fn new(creds: Cred, symbol: Symbol) -> (res: Okx)
        ensures
            res.creds == creds,
            res.symbol == symbol,
    {
        Okx { creds, symbol }
    }

    pub fn set_creds(&mut self, creds: Cred)
        ensures
            final(self).creds == creds,
            final(self).symbol == old(self).symbol,
    {
        self.creds = creds;
    }

    pub fn set_symbol(&mut self, symbol: Symbol)
        ensures
            final(self).symbol == symbol,
            final(self).creds == old(self).creds,
    {
        self.symbol = symbol;
    }

    /// `okx:BTC/USD` gives `BTC-USD`.
    pub fn symbol_to_pair(s: &Symbol) -> (res: String)
        ensures
            res@ == pair_text(s@, '-'),
    {
        pair_of_symbol(s, '-')
    }

    /// `BTC-USD` gives `okx:BTC/USD`; an error when there is no `-`.
    pub fn pair_to_symbol(pair: &str) -> (res: Result<Symbol, ConnectorError>)
        ensures
            match res {
                Ok(s) => symbol_of_pair(pair@, okx_name(), '-') == Some(s@),
                Err(e) => symbol_of_pair(pair@, okx_name(), '-') is None && (e matches ConnectorError::BadPair(
                    p,
                ) && p@ == pair@),
            },
    {
        match symbol_of_pair_text(pair, "okx", '-') {
            Some(s) => Ok(s),
            None => Err(ConnectorError::BadPair(String::from_str(pair))),
        }
    }
}

/// Writing an OKX symbol as a pair and reading it back gives the symbol, when
/// its currencies are normal and the base holds no `-`.
pub proof fn law_okx_pair_round_trip(s: SymbolView)
    requires
        s.eg == okx_name(),
        normal_currency(s.bs),
        normal_currency(s.qt),
        !s.bs.contains('-'),
    ensures
        symbol_of_pair(pair_text(s, '-'), okx_name(), '-') == Some(s),
{
    law_pair_round_trip(s, '-');
}

} // verus!
