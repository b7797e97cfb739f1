//! Trading signals.

use vstd::prelude::*;

verus! {

/// What a strategy reads from a candle, from a strong case for buying to
/// a strong case for selling.
#[allow(non_camel_case_types)]
#[derive(Clone, Copy, Debug, PartialEq, Eq, Structural)]
pub enum Signal {
    UNDERVALUED,
    BUY,
    NEUTRAL,
    SELL,
    OVERVALUED,
}

impl Signal {
    /// The one-letter code of the signal.
    pub open spec fn code(self) -> char {
        match self {
            Signal::UNDERVALUED => 'u',
            Signal::BUY => 'B',
            Signal::NEUTRAL => '-',
            Signal::SELL => 'S',
            Signal::OVERVALUED => 'o',
        }
    }

    /// The weight of the signal in parts per million: one for
    /// undervalued, a half for buy, nothing for neutral, and the same
    /// below zero for sell and overvalued.
    pub open spec fn weight(self) -> int {
        match self {
            Signal::UNDERVALUED => 1_000_000,
            Signal::BUY => 500_000,
            Signal::NEUTRAL => 0,
            Signal::SELL => -500_000,
            Signal::OVERVALUED => -1_000_000,
        }
    }

    /// The code and the weight of the signal.
    pub fn get_value(&self) -> (value: (char, i128))
        ensures
            value.0 == self.code(),
            value.1 == self.weight(),
    {
        match self {
            Signal::UNDERVALUED => ('u', 1_000_000),
            Signal::BUY => ('B', 500_000),
            Signal::NEUTRAL => ('-', 0),
            Signal::SELL => ('S', -500_000),
            Signal::OVERVALUED => ('o', -1_000_000),
        }
    }
}

} // verus!
