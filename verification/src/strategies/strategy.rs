//! Strategies: the source of the signals that open and close trades.

use crate::account::trade::TradeSide;
use crate::candles::candle::Candle;
use crate::indicators::signal::Signal;
use vstd::prelude::*;

verus! {

pub trait Strategy {
    /// What the strategy reads from `candle`.
    fn get_signal(&self, candle: Candle) -> Signal;

    /// The direction that the strategy trades in, if it trades in one
    /// only: none, unless the strategy says otherwise.
    fn trade_side(&self) -> (side: Option<TradeSide>)
        default_ensures
            side.is_none(),
    {
        None
    }

    /// Whether a trade that the strategy opened is closed on a signal in
    /// the opposite direction: it is, unless the strategy says otherwise.
    fn exit_on_opposite_signal(&self) -> (exit: bool)
        default_ensures
            exit,
    {
        true
    }
}

} // verus!
