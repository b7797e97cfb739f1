//! Monitors: those who are told of the life of a trade.
//!
//! A monitored trade is a trade together with its monitors and the
//! strategy that opened it. It does to the trade what the trade does
//! alone, and tells every monitor, in their order, of each order taken
//! and of each new extreme of the change.

use crate::account::order::{Order, OrderSide};
use crate::account::trade::{TickOutcome, Trade, TradeError};
use crate::candles::candle::Candle;
use crate::strategies::indicator_group::IndicatorGroup;
use crate::strategies::strategy::Strategy;
use vstd::prelude::*;

verus! {

pub trait StrategyMonitor: IndicatorGroup {
    /// A reason to stop the trade, if the monitor has one: none, unless
    /// the monitor says otherwise.
    fn handle_stop(&self, trade: &Trade) -> (reason: Option<String>)
        default_ensures
            reason.is_none(),
    {
        None
    }

    /// Whether a signal of `strategy` to buy is dropped: it is not,
    /// unless the monitor says otherwise.
    fn discard_buy(&self, strategy: &dyn Strategy) -> (discard: bool)
        default_ensures
            !discard,
    {
        false
    }

    /// Whether a signal of `strategy` to sell short is dropped: it is
    /// not, unless the monitor says otherwise.
    fn discard_short_sell(&self, strategy: &dyn Strategy) -> (discard: bool)
        default_ensures
            !discard,
    {
        false
    }

    /// Whether trades opened by different strategies may stand side by
    /// side: they may, unless the monitor says otherwise.
    fn allow_mixed_strategies(&self) -> (allowed: bool)
        default_ensures
            allowed,
    {
        true
    }

    /// Told when the change of the trade, in parts per million, has
    /// reached a new maximum.
    fn highest_profit(&self, trade: &Trade, change: i128) {
    }

    /// Told when the change of the trade, in parts per million, has
    /// reached a new minimum.
    fn worst_loss(&self, trade: &Trade, change: i128) {
    }

    /// Told when the trade has taken an order to buy.
    fn bought(&self, trade: &Trade, order: &Order) {
    }

    /// Told when the trade has taken an order to sell.
    fn sold(&self, trade: &Trade, order: &Order) {
    }

    /// Whether the trade may be closed: it may, unless the monitor says
    /// otherwise.
    fn allow_exit(&self, trade: &Trade) -> (allowed: bool)
        default_ensures
            allowed,
    {
        true
    }

    /// Whether the trade may be given up for one in another symbol: it
    /// may not, unless the monitor says otherwise.
    fn allow_trade_switch(
        &self,
        trade: &Trade,
        exit_symbol: String,
        candle: Candle,
        candle_ticker: String,
    ) -> (allowed: bool)
        default_ensures
            !allowed,
    {
        false
    }
}

/// A trade with its monitors and the strategy that opened it. The
/// monitors may be of one type or, with `dyn StrategyMonitor` for
/// `Monitor`, of any.
pub struct MonitoredTrade<Monitor: StrategyMonitor + ?Sized> {
    pub trade: Trade,
    pub monitors: Vec<Box<Monitor>>,
    pub opening_strategy: Option<Box<dyn Strategy>>,
}

impl<Monitor: StrategyMonitor + ?Sized> MonitoredTrade<Monitor> {
    /// A trade without orders that is closed on `side`.
    pub fn new(
        id: u64,
        side: OrderSide,
        opening_strategy: Option<Box<dyn Strategy>>,
        monitors: Vec<Box<Monitor>>,
        is_placeholder: bool,
    ) -> (monitored: MonitoredTrade<Monitor>)
        ensures
            monitored.trade@ == crate::account::trade::TradeView::empty(id, side, is_placeholder),
            monitored.trade.wf(),
            monitored.monitors == monitors,
            monitored.opening_strategy == opening_strategy,
    {
        MonitoredTrade { trade: Trade::new(id, side, is_placeholder), monitors, opening_strategy }
    }

    /// A trade without monitors for the position that `opening_order`
    /// opens.
    pub fn new_from_order(
        id: u64,
        opening_order: &Order,
        opening_strategy: Option<Box<dyn Strategy>>,
    ) -> (monitored: MonitoredTrade<Monitor>)
        ensures
            monitored.trade@ == crate::account::trade::TradeView::empty(
                id,
                opening_order@.request.side.opposite_spec(),
                false,
            ),
            monitored.trade.wf(),
            monitored.monitors@.len() == 0,
            monitored.opening_strategy == opening_strategy,
    {
        MonitoredTrade {
            trade: Trade::new_from_order(id, opening_order),
            monitors: Vec::new(),
            opening_strategy,
        }
    }

    /// A trade without monitors that stands for an order not yet
    /// confirmed.
    pub fn create_placeholder(id: u64, side: OrderSide) -> (monitored: MonitoredTrade<Monitor>)
        ensures
            monitored.trade@ == crate::account::trade::TradeView::empty(id, side, true),
            monitored.trade.wf(),
            monitored.monitors@.len() == 0,
            monitored.opening_strategy.is_none(),
    {
        MonitoredTrade {
            trade: Trade::create_placeholder(id, side),
            monitors: Vec::new(),
            opening_strategy: None,
        }
    }

    /// Tells every monitor of the order that the trade took last: the
    /// last entry order, or the last exit order if `exit`.
    fn tell_of_order(&self, exit: bool)
        requires
            exit ==> self.trade@.exit_orders.len() > 0,
            !exit ==> self.trade@.position.len() > 0,
    {
        let orders: &Vec<Order> = if exit {
            self.trade.exit_orders()
        } else {
            self.trade.position()
        };
        let order: &Order = &orders[orders.len() - 1];
        let buy: bool = order.order_request().is_buy();
        let mut i: usize = 0;
        while i < self.monitors.len()
            invariant
                i <= self.monitors.len(),
            decreases self.monitors.len() - i,
        {
            if buy {
                self.monitors[i].bought(&self.trade, order);
            } else {
                self.monitors[i].sold(&self.trade, order);
            }
            i += 1;
        }
    }

    /// Adds an entry order to the trade and tells the monitors that the
    /// trade bought or sold, by the side of the order. A refused order
    /// changes nothing and nobody is told.
    pub fn increase_position(&mut self, order: Order) -> (result: Result<(), TradeError>)
        requires
            old(self).trade.wf(),
        ensures
            final(self).trade.wf(),
            match result {
                Ok(_) => {
                    &&& old(self).trade@.accepts_entry(order@)
                    &&& old(self).trade@.entry_fits(order@)
                    &&& final(self).trade@ == old(self).trade@.entered(order)
                },
                Err(TradeError::InvalidState) => {
                    &&& !old(self).trade@.accepts_entry(order@)
                    &&& final(self).trade@ == old(self).trade@
                },
                Err(TradeError::LimitExceeded) => {
                    &&& old(self).trade@.accepts_entry(order@)
                    &&& !old(self).trade@.entry_fits(order@)
                    &&& final(self).trade@ == old(self).trade@
                },
            },
            final(self).monitors == old(self).monitors,
            final(self).opening_strategy == old(self).opening_strategy,
    {
        match self.trade.increase_position(order) {
            Ok(()) => {
                self.tell_of_order(false);
                Ok(())
            },
            Err(error) => Err(error),
        }
    }

    /// Adds an exit order to the trade and tells the monitors that the
    /// trade bought or sold, by the side of the order. A refused order
    /// changes nothing and nobody is told.
    pub fn decrease_position(&mut self, order: Order, reason: String) -> (result: Result<
        bool,
        TradeError,
    >)
        requires
            old(self).trade.wf(),
        ensures
            final(self).trade.wf(),
            match result {
                Ok(finalized) => {
                    &&& old(self).trade@.accepts_exit(order@)
                    &&& old(self).trade@.exit_fits(order@)
                    &&& final(self).trade@ == old(self).trade@.exited(order, reason)
                    &&& finalized == final(self).trade@.finalized
                },
                Err(TradeError::InvalidState) => {
                    &&& !old(self).trade@.accepts_exit(order@)
                    &&& final(self).trade@ == old(self).trade@
                },
                Err(TradeError::LimitExceeded) => {
                    &&& old(self).trade@.accepts_exit(order@)
                    &&& !old(self).trade@.exit_fits(order@)
                    &&& final(self).trade@ == old(self).trade@
                },
            },
            final(self).monitors == old(self).monitors,
            final(self).opening_strategy == old(self).opening_strategy,
    {
        match self.trade.decrease_position(order, reason) {
            Ok(finalized) => {
                self.tell_of_order(true);
                Ok(finalized)
            },
            Err(error) => Err(error),
        }
    }

    /// Counts `candle` for the trade and tells the monitors of a new
    /// maximum or minimum of its change.
    pub fn tick(&mut self, candle: &Candle) -> (outcome: TickOutcome)
        requires
            old(self).trade.wf(),
            old(self).trade@.is_open() ==> old(self).trade@.ticks < u64::MAX,
        ensures
            final(self).trade.wf(),
            final(self).trade@ == old(self).trade@.ticked(*candle),
            outcome == old(self).trade@.tick_outcome(*candle),
            final(self).monitors == old(self).monitors,
            final(self).opening_strategy == old(self).opening_strategy,
    {
        let outcome: TickOutcome = self.trade.tick(candle);
        let change: i128 = self.trade.change();
        let mut i: usize = 0;
        while i < self.monitors.len()
            invariant
                i <= self.monitors.len(),
            decreases self.monitors.len() - i,
        {
            if outcome.highest_profit {
                self.monitors[i].highest_profit(&self.trade, change);
            }
            if outcome.worst_loss {
                self.monitors[i].worst_loss(&self.trade, change);
            }
            i += 1;
        }
        outcome
    }
}

} // verus!
