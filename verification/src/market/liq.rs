//! Liquidity levels and order books.
use vstd::prelude::*;
use crate::market::decimal::{decimal_spec, parse_decimal};

verus! {

/// One level of an order-book side: a price and the amount offered at it,
/// each held as its decimal code (see `market::decimal`), an integer that
/// orders as the number does; zero has code 0.
#[derive(Clone, Copy, Debug, PartialEq, Eq)]
pub struct Liq {
    pub price: i128,
    pub amount: i128,
}

impl Liq {
    pub fn from_pa(price: i128, amount: i128) -> (res: Liq)
        ensures
            res.price == price,
            res.amount == amount,
    {
        Liq { price, amount }
    }
}

/// An order book: asks (offers to sell) and bids (offers to buy).
#[derive(Debug)]
pub struct Depth {
    pub asks: Vec<Liq>,
    pub bids: Vec<Liq>,
}

/// The contents of a [`Depth`].
#[verifier::ext_equal]
pub struct DepthView {
    pub asks: Seq<Liq>,
    pub bids: Seq<Liq>,
}

impl View for Depth {
    type V = DepthView;

    open spec fn view(&self) -> DepthView {
        DepthView { asks: self.asks@, bids: self.bids@ }
    }
}

impl Depth {
    /// The empty order book.
    pub fn new() -> (res: Depth)
        ensures
            res@.asks.len() == 0,
            res@.bids.len() == 0,
    {
        Depth { asks: Vec::new(), bids: Vec::new() }
    }

    /// A copy of this order book.
    pub fn duplicate(&self) -> (res: Depth)
        ensures
            res@ == self@,
    {
        let mut asks: Vec<Liq> = Vec::new();
        let mut i: usize = 0;
        while i < self.asks.len()
            invariant
                i <= self.asks@.len(),
                asks@ == self.asks@.subrange(0, i as int),
            decreases self.asks.len() - i,
        {
            asks.push(self.asks[i]);
            i = i + 1;
        }
        let mut bids: Vec<Liq> = Vec::new();
        let mut j: usize = 0;
        while j < self.bids.len()
            invariant
                j <= self.bids@.len(),
                bids@ == self.bids@.subrange(0, j as int),
            decreases self.bids.len() - j,
        {
            bids.push(self.bids[j]);
            j = j + 1;
        }
        proof {
            assert(asks@ =~= self.asks@);
            assert(bids@ =~= self.bids@);
        }
        Depth { asks, bids }
    }
}

/// Why price-level texts could not be read.
#[derive(Debug)]
pub enum LevelError {
    /// A level holds fewer than two texts: the amount is missing.
    MissingAmount,
    /// A price or amount text that is not a number in Rust's float syntax,
    /// is `inf` or `nan`, or whose exponent passes what a code holds (see
    /// [`decimal_spec`]); the text.
    BadNumber(String),
}

/// A price level as exchanges send it: at least two number texts, the price
/// and then the amount (further entries are ignored).
pub open spec fn level_ok(pa: Seq<String>) -> bool {
    pa.len() >= 2 && decimal_spec(pa[0]@) is Some && decimal_spec(pa[1]@) is Some
}

/// The level that the texts `pa` describe.
pub open spec fn level_liq(pa: Seq<String>) -> Liq {
    Liq { price: decimal_spec(pa[0]@)->0, amount: decimal_spec(pa[1]@)->0 }
}

/// `e` is the error of reading the level `pa`, which is not well formed: a
/// missing amount, else the price text when it cannot be read, else the
/// amount text.
pub open spec fn level_error_of(pa: Seq<String>, e: LevelError) -> bool {
    if pa.len() < 2 {
        e matches LevelError::MissingAmount
    } else if decimal_spec(pa[0]@) is None {
        e matches LevelError::BadNumber(t) && t@ == pa[0]@
    } else {
        e matches LevelError::BadNumber(t) && t@ == pa[1]@
    }
}

pub open spec fn levels_ok(levels: Seq<Vec<String>>) -> bool {
    forall|i: int| 0 <= i < levels.len() ==> level_ok(#[trigger] levels[i]@)
}

pub open spec fn levels_liqs(levels: Seq<Vec<String>>) -> Seq<Liq> {
    Seq::new(levels.len(), |i: int| level_liq(levels[i]@))
}

/// `e` is the error of reading `levels`: that of its first level that is not
/// well formed.
pub open spec fn levels_error_of(levels: Seq<Vec<String>>, e: LevelError) -> bool {
    exists|i: int|
        0 <= i < levels.len() && !level_ok(#[trigger] levels[i]@) && (forall|j: int|
            0 <= j < i ==> level_ok(#[trigger] levels[j]@)) && level_error_of(levels[i]@, e)
}

/// `e` is the error of reading an order book from ask and bid level texts:
/// that of the asks when they are not well formed, else that of the bids.
pub open spec fn depth_error_of(asks: Seq<Vec<String>>, bids: Seq<Vec<String>>, e: LevelError) -> bool {
    if !levels_ok(asks) {
        levels_error_of(asks, e)
    } else {
        levels_error_of(bids, e)
    }
}

impl Liq {
    /// The level that the texts `pa` describe: the price, then the amount;
    /// the error of the level when it is not well formed.
    pub fn from_level(pa: &Vec<String>) -> (res: Result<Liq, LevelError>)
        ensures
            match res {
                Ok(l) => level_ok(pa@) && l == level_liq(pa@),
                Err(e) => !level_ok(pa@) && level_error_of(pa@, e),
            },
    {
        if pa.len() < 2 {
            return Err(LevelError::MissingAmount);
        }
        let p = match parse_decimal(pa[0].as_str()) {
            Some(p) => p,
            None => {
                return Err(LevelError::BadNumber(pa[0].clone()));
            },
        };
        let a = match parse_decimal(pa[1].as_str()) {
            Some(a) => a,
            None => {
                return Err(LevelError::BadNumber(pa[1].clone()));
            },
        };
        Ok(Liq { price: p, amount: a })
    }
}

/// The levels that the texts `levels` describe, in order; the error of the
/// first level that is not well formed.
pub fn liqs_from_levels(levels: &Vec<Vec<String>>) -> (res: Result<Vec<Liq>, LevelError>)
    ensures
        match res {
            Ok(v) => levels_ok(levels@) && v@ == levels_liqs(levels@),
            Err(e) => !levels_ok(levels@) && levels_error_of(levels@, e),
        },
{
    let mut res: Vec<Liq> = Vec::new();
    let mut i: usize = 0;
    while i < levels.len()
        invariant
            i <= levels@.len(),
            forall|j: int| 0 <= j < i ==> level_ok(#[trigger] levels@[j]@),
            res@ == levels_liqs(levels@).subrange(0, i as int),
        decreases levels.len() - i,
    {
        match Liq::from_level(&levels[i]) {
            Ok(l) => {
                res.push(l);
            },
            Err(e) => {
                proof {
                    assert(!level_ok(levels@[i as int]@));
                    assert(levels_error_of(levels@, e));
                }
                return Err(e);
            },
        }
        i = i + 1;
    }
    proof {
        assert(levels_liqs(levels@).subrange(0, levels@.len() as int) =~= levels_liqs(levels@));
    }
    Ok(res)
}

impl Depth {
    /// The order book that the texts of asks and bids describe; the error of
    /// the first level, asks before bids, that is not well formed.
    pub fn from_levels(asks: &Vec<Vec<String>>, bids: &Vec<Vec<String>>) -> (res: Result<Depth, LevelError>)
        ensures
            match res {
                Ok(d) => levels_ok(asks@) && levels_ok(bids@) && d@.asks == levels_liqs(asks@) && d@.bids
                    == levels_liqs(bids@),
                Err(e) => !(levels_ok(asks@) && levels_ok(bids@)) && depth_error_of(asks@, bids@, e),
            },
    {
        let a = match liqs_from_levels(asks) {
            Ok(a) => a,
            Err(e) => {
                return Err(e);
            },
        };
        let b = match liqs_from_levels(bids) {
            Ok(b) => b,
            Err(e) => {
                return Err(e);
            },
        };
        Ok(Depth { asks: a, bids: b })
    }
}

} // verus!
