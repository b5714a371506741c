//! Trading symbols: an exchange with a base and a quote currency, written
//! `exchange:BASE/QUOTE`.
use vstd::prelude::*;
use vstd::string::*;
use crate::bindings::{symbol_error_text, symbol_parts, tt_symbol_new, tt_symbol_try_from, upper};
use crate::text::{all_ascii, ascii_upper, count_char, lemma_count_absent, lemma_count_concat, lemma_split_once_spec, splits_at_first};

verus! {

/// An exchange with a pair of currencies; the currencies are held upper-cased.
#[derive(Debug)]
pub struct Symbol {
    pub eg: String,
    pub bs: String,
    pub qt: String,
}

/// The contents of a [`Symbol`].
#[verifier::ext_equal]
pub struct SymbolView {
    pub eg: Seq<char>,
    pub bs: Seq<char>,
    pub qt: Seq<char>,
}

impl View for Symbol {
    type V = SymbolView;

    open spec fn view(&self) -> SymbolView {
        SymbolView { eg: self.eg@, bs: self.bs@, qt: self.qt@ }
    }
}

/// A symbol text that could not be read.
#[derive(Debug)]
pub enum SymbolError {
    BadSymbol(String),
}

/// The text of a symbol: `exchange:BASE/QUOTE`.
pub open spec fn symbol_text(s: SymbolView) -> Seq<char> {
    s.eg + seq![':'] + s.bs + seq!['/'] + s.qt
}

/// The symbol that a text `exchange:BASE/QUOTE` describes.
pub open spec fn symbol_from_text(text: Seq<char>) -> Option<SymbolView> {
    match symbol_parts(text) {
        Some(p) => Some(SymbolView { eg: p.0, bs: upper(p.1), qt: upper(p.2) }),
        None => None,
    }
}

impl Symbol {
    /// The symbol of exchange `eg` for base `cb` and quote `cq`, currencies
    /// upper-cased.
    pub fn new(eg: String, cb: String, cq: String) -> (res: Symbol)
        ensures
            res@ == (SymbolView { eg: eg@, bs: upper(cb@), qt: upper(cq@) }),
    {
        tt_symbol_new(eg, cb, cq)
    }

    /// Reads `exchange:BASE/QUOTE`.
    pub fn try_from_text(text: &str) -> (res: Result<Symbol, SymbolError>)
        ensures
            match res {
                Ok(s) => symbol_from_text(text@) == Some(s@),
                Err(SymbolError::BadSymbol(t)) => symbol_from_text(text@) is None && t@
                    == symbol_error_text(text@),
            },
    {
        tt_symbol_try_from(text)
    }

    /// A copy of this symbol.
    pub fn duplicate(&self) -> (res: Symbol)
        ensures
            res == *self,
    {
        Symbol { eg: self.eg.clone(), bs: self.bs.clone(), qt: self.qt.clone() }
    }

    /// The text of the symbol, `exchange:BASE/QUOTE`.
    pub fn to_string(&self) -> (res: String)
        ensures
            res@ == symbol_text(self@),
    {
        let mut res = self.eg.clone();
        res.append(":");
        res.append(self.bs.as_str());
        res.append("/");
        res.append(self.qt.as_str());
        proof {
            reveal_strlit(":");
            reveal_strlit("/");
            assert(res@ =~= symbol_text(self@));
        }
        res
    }

    /// Whether two symbols are the same.
    pub fn same_as(&self, other: &Symbol) -> (res: bool)
        ensures
            res == (self@ == other@),
    {
        let r = self.eg == other.eg && self.bs == other.bs && self.qt == other.qt;
        proof {
            if self.eg@ == other.eg@ && self.bs@ == other.bs@ && self.qt@ == other.qt@ {
                assert(self@ =~= other@);
            }
        }
        r
    }
}

/// Writing a symbol as text and reading the text back gives the symbol, when
/// the exchange holds no `:`, the currencies hold neither `:` nor `/`, and
/// the currencies are ASCII and upper-cased.
pub proof fn law_symbol_text_round_trip(s: SymbolView)
    requires
        !s.eg.contains(':'),
        !s.bs.contains(':'),
        !s.qt.contains(':'),
        !s.bs.contains('/'),
        !s.qt.contains('/'),
        all_ascii(s.bs),
        ascii_upper(s.bs) == s.bs,
        all_ascii(s.qt),
        ascii_upper(s.qt) == s.qt,
    ensures
        symbol_from_text(symbol_text(s)) == Some(s),
{
    let rest = s.bs + seq!['/'] + s.qt;
    let text = symbol_text(s);
    assert(text =~= s.eg + seq![':'] + rest);
    assert(splits_at_first(text, ':', s.eg, rest));
    lemma_split_once_spec(text, ':', s.eg, rest);
    assert(splits_at_first(rest, '/', s.bs, s.qt));
    lemma_split_once_spec(rest, '/', s.bs, s.qt);
    lemma_count_absent(s.eg, ':');
    lemma_count_absent(s.bs, ':');
    lemma_count_absent(s.qt, ':');
    lemma_count_absent(s.bs, '/');
    lemma_count_absent(s.qt, '/');
    lemma_count_concat(s.eg, seq![':'], ':');
    lemma_count_concat(s.eg + seq![':'], rest, ':');
    lemma_count_concat(s.bs, seq!['/'], ':');
    lemma_count_concat(s.bs + seq!['/'], s.qt, ':');
    lemma_count_concat(s.bs, seq!['/'], '/');
    lemma_count_concat(s.bs + seq!['/'], s.qt, '/');
    assert(count_char(seq![':'], ':') == 1) by {
        assert(seq![':'].drop_last() =~= Seq::<char>::empty());
        reveal_with_fuel(count_char, 2);
    }
    assert(count_char(seq!['/'], ':') == 0) by {
        assert(seq!['/'].drop_last() =~= Seq::<char>::empty());
        reveal_with_fuel(count_char, 2);
    }
    assert(count_char(seq!['/'], '/') == 1) by {
        assert(seq!['/'].drop_last() =~= Seq::<char>::empty());
        reveal_with_fuel(count_char, 2);
    }
    assert(symbol_from_text(text) =~= Some(s));
}

} // verus!
