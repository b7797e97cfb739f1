//! Groups of indicators that are fed together.

use crate::candles::aggregator::Aggregator;
use crate::candles::candle::Candle;
use crate::strategies::indicator::Indicator;
use vstd::prelude::*;

verus! {

pub trait IndicatorGroup {
    fn is_initialized(&self) -> bool;

    /// Prepares every indicator of the group for the candles of `parent`,
    /// unless the group says that it is initialized.
    fn initialize(&self, parent: &Aggregator) {
        if self.is_initialized() {
            return ;
        }
        let indicators: Vec<Box<dyn Indicator>> = self.get_indicators();
        let mut i: usize = 0;
        while i < indicators.len()
            invariant
                i <= indicators.len(),
            decreases indicators.len() - i,
        {
            indicators[i].initialize(parent);
            i += 1;
        }
    }

    /// Hands `candle` to every indicator of the group, in their order,
    /// and then tells the group.
    fn accumulate(&self, candle: &Candle) {
        let indicators: Vec<Box<dyn Indicator>> = self.get_indicators();
        let mut i: usize = 0;
        while i < indicators.len()
            invariant
                i <= indicators.len(),
            decreases indicators.len() - i,
        {
            indicators[i].accumulate(candle);
            i += 1;
        }
        self.candle_accumulated(candle);
    }

    fn get_indicators(&self) -> Vec<Box<dyn Indicator>>;

    /// Told after every indicator has taken `candle`.
    fn candle_accumulated(&self, candle: &Candle);
}

} // verus!
