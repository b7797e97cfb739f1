//! Indicators: values computed over the candles of an interval.

use crate::candles::aggregator::Aggregator;
use crate::candles::candle::Candle;
use crate::indicators::signal::Signal;
use vstd::prelude::*;

verus! {

pub trait Indicator {
    /// Takes one more candle into the value.
    fn accumulate(&self, candle: &Candle);

    /// Number of candles taken so far.
    fn get_accumulation_count(&self) -> u64;

    /// The value of the indicator, in parts per million.
    fn get_value(&self) -> i128;

    /// Width in milliseconds of the candles that the indicator takes.
    fn get_interval(&self) -> u64;

    /// What the indicator reads from `candle`.
    fn get_signal(&self, candle: &Candle) -> Signal;

    /// What the indicator says of its signal: nothing, unless the
    /// indicator says otherwise.
    fn signal_description(&self) -> (description: String)
        default_ensures
            description@ == Seq::<char>::empty(),
    {
        String::new()
    }

    /// Prepares the indicator for the candles of `aggregator`.
    fn initialize(&self, aggregator: &Aggregator) {
    }

    fn recalculate_every_tick(&self, recalculate_every_tick: bool) {
    }
}

} // verus!
