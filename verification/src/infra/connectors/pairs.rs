//! Currency pairs as exchanges write them (`BTC_USDT`, `BTC-USDT`).
use vstd::prelude::*;
use vstd::string::*;
use crate::bindings::{str_to_uppercase, upper};
use crate::market::symbol::{Symbol, SymbolView};
use crate::text::{all_ascii, ascii_upper, lemma_split_once_spec, split_once, split_once_spec, splits_at_first};

verus! {

/// Why a connector could not read a pair, a topic or an event.
#[derive(Debug, PartialEq, Eq)]
pub enum ConnectorError {
    /// The pair has no separator; the pair.
    BadPair(String),
    /// The topic names no pair; the topic.
    BadTopic(String),
    /// The event is neither an update nor a snapshot; the event.
    BadEvent(String),
}

/// The pair of a symbol: upper-cased base, separator, upper-cased quote.
pub open spec fn pair_text(s: SymbolView, sep: char) -> Seq<char> {
    upper(s.bs) + seq![sep] + upper(s.qt)
}

/// The symbol of exchange `eg` that a pair `BASE<sep>QUOTE` names, split at
/// the first separator; `None` when the separator does not occur.
pub open spec fn symbol_of_pair(pair: Seq<char>, eg: Seq<char>, sep: char) -> Option<SymbolView> {
    match split_once_spec(pair, sep) {
        Some((b, q)) => Some(SymbolView { eg, bs: upper(b), qt: upper(q) }),
        None => None,
    }
}

/// A currency as symbols hold it: ASCII, already upper-cased.
pub open spec fn normal_currency(c: Seq<char>) -> bool {
    all_ascii(c) && ascii_upper(c) == c
}

/// Upper-cases a currency.
pub fn upper_currency(c: &String) -> (res: String)
    ensures
        res@ == upper(c@),
{
    str_to_uppercase(c.as_str())
}

/// The pair of `s`, written with `sep`.
pub fn pair_of_symbol(s: &Symbol, sep: char) -> (res: String)
    ensures
        res@ == pair_text(s@, sep),
{
    let mut res = upper_currency(&s.bs);
    crate::bindings::push_char(&mut res, sep);
    let q = upper_currency(&s.qt);
    res.append(q.as_str());
    res
}

/// The symbol of exchange `eg` that `pair` names, if `sep` occurs in it.
pub fn symbol_of_pair_text(pair: &str, eg: &str, sep: char) -> (res: Option<Symbol>)
    ensures
        match res {
            Some(s) => symbol_of_pair(pair@, eg@, sep) == Some(s@),
            None => symbol_of_pair(pair@, eg@, sep) is None,
        },
{
    match split_once(pair, sep) {
        Some((b, q)) => {
            let s = Symbol::new(String::from_str(eg), b, q);
            Some(s)
        },
        None => None,
    }
}

/// A normal currency is its own upper-casing.
pub proof fn lemma_upper_normal(c: Seq<char>)
    requires
        normal_currency(c),
    ensures
        upper(c) == c,
{
}

/// Writing a symbol as a pair and reading the pair back gives the symbol,
/// when its currencies are normal and the base does not hold the separator.
pub proof fn law_pair_round_trip(s: SymbolView, sep: char)
    requires
        normal_currency(s.bs),
        normal_currency(s.qt),
        !s.bs.contains(sep),
    ensures
        symbol_of_pair(pair_text(s, sep), s.eg, sep) == Some(s),
{
    let p = pair_text(s, sep);
    assert(splits_at_first(p, sep, s.bs, s.qt));
    lemma_split_once_spec(p, sep, s.bs, s.qt);
    assert(symbol_of_pair(p, s.eg, sep) =~= Some(s));
}

} // verus!
