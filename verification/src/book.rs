//! Order-book snapshots: one venue's view of one trading pair, with
//! price levels held as fixed-point micro-unit integers.

use vstd::prelude::*;

use crate::MAX_PRICE_MICRO;
use crate::MAX_SIZE_MICRO;

verus! {

/// One price level: a price and the size quoted at it, both in
/// micro-units.
#[derive(Clone, Copy)]
pub struct Level {
    pub price_micro: u64,
    pub size_micro: u64,
}

impl Level {
    pub open spec fn wf(self) -> bool {
        &&& self.price_micro <= MAX_PRICE_MICRO
        &&& self.size_micro <= MAX_SIZE_MICRO
    }
}

/// An immutable order-book snapshot. Levels are as delivered by the
/// venue, best-first: the best bid and the best ask, when present,
/// stand at index zero. A book with empty bids or empty asks is
/// unusable for analysis.
pub struct OrderBook {
    pub exchange: String,
    pub pair: String,
    pub bids: Vec<Level>,
    pub asks: Vec<Level>,
    pub timestamp_millis: i64,
}

impl OrderBook {
    /// Every level within the representable fixed-point range.
    pub open spec fn wf(self) -> bool {
        &&& forall|i: int| 0 <= i < self.bids@.len() ==> (#[trigger] self.bids@[i]).wf()
        &&& forall|i: int| 0 <= i < self.asks@.len() ==> (#[trigger] self.asks@[i]).wf()
    }

    /// Usable for analysis: at least one bid and one ask.
    pub open spec fn usable(self) -> bool {
        self.bids@.len() > 0 && self.asks@.len() > 0
    }

    pub open spec fn spec_best_bid(self) -> Level {
        self.bids@[0]
    }

    pub open spec fn spec_best_ask(self) -> Level {
        self.asks@[0]
    }

    /// The best (highest) bid level, at index zero.
    pub fn best_bid(&self) -> (r: Level)
        requires
            self.usable(),
        ensures
            r == self.spec_best_bid(),
    {
        self.bids[0]
    }

    /// The best (lowest) ask level, at index zero.
    pub fn best_ask(&self) -> (r: Level)
        requires
            self.usable(),
        ensures
            r == self.spec_best_ask(),
    {
        self.asks[0]
    }

    /// Whether the book can take part in analysis.
    pub fn is_usable(&self) -> (r: bool)
        ensures
            r == self.usable(),
    {
        self.bids.len() > 0 && self.asks.len() > 0
    }
}

} // verus!
