//! Positions: entry and exit fills, cost basis, profit and loss.
//!
//! A trade is a placeholder until its first entry order arrives, open
//! while it holds entry orders and is not finalized, and finalized once
//! its exit orders have closed as many units as its entry orders bought
//! or sold. The cost basis is the sum over the entry orders of executed
//! quantity times average price; the average price of the trade is the
//! cost basis divided by the units held.
//!
//! What a candle means to those who watch a trade is returned as a plain
//! value: a monitored trade passes it on to its monitors.

use crate::account::order::{Order, OrderSide, OrderView};
use crate::candles::candle::Candle;
use crate::trading_fees::{charge, charged_amount, takes, TradingFees};
use crate::units::{
    average_of,
    change_ratio,
    change_ratio_spec,
    notional,
    notional_of,
    ratio_of,
    ratio_spec,
};
use vstd::prelude::*;

verus! {

/// Direction of a position.
#[allow(non_camel_case_types)]
#[derive(Clone, Copy, Debug, PartialEq, Eq, Structural)]
pub enum TradeSide {
    LONG,
    SHORT,
}

/// Largest entry value, exit value and sum of fees that a trade holds:
/// two to the power 100.
pub const VALUE_LIMIT: u128 = 0x10_0000_0000_0000_0000_0000_0000;

/// Relative gain of a long position bought at `spent` when the price is
/// `current_price`, in parts per million; zero when `spent` is zero.
pub fn positive_price_change_ratio(spent: u64, current_price: u64) -> (ratio: i128)
    ensures
        ratio == change_ratio_spec(spent as nat, current_price as nat),
{
    change_ratio(spent, current_price)
}

/// Relative gain of a short position sold at `spent` when the price is
/// `current_price`, in parts per million; zero when `spent` is zero.
pub fn negative_price_change_ratio(spent: u64, current_price: u64) -> (ratio: i128)
    ensures
        ratio == -change_ratio_spec(spent as nat, current_price as nat),
{
    proof {
        lemma_change_ratio_bound(spent, current_price);
    }
    -change_ratio(spent, current_price)
}

/// A change between two prices is within two to the power 84 parts per
/// million either way.
proof fn lemma_change_ratio_bound(base: u64, current: u64)
    ensures
        -0x10_0000_0000_0000_0000_0000 <= change_ratio_spec(base as nat, current as nat)
            <= 0x10_0000_0000_0000_0000_0000,
{
    if base != 0 {
        let diff: int = if current >= base {
            current - base
        } else {
            base - current
        };
        assert(0 <= (diff * 1_000_000) / (base as int) <= diff * 1_000_000) by (nonlinear_arith)
            requires
                diff >= 0,
                base >= 1,
        ;
    }
}

/// Why a trade refused an order.
#[derive(Clone, Copy, Debug, PartialEq, Eq, Structural)]
pub enum TradeError {
    /// The trade is not in a state that takes the order.
    InvalidState,
    /// With the order the totals of the trade would pass what it can
    /// hold.
    LimitExceeded,
}

/// What a candle changed in the extremes of a trade.
#[derive(Clone, Copy, Debug, PartialEq, Eq, Structural)]
pub struct TickOutcome {
    /// The change reached a new maximum.
    pub highest_profit: bool,
    /// The change reached a new minimum.
    pub worst_loss: bool,
}

/// Units executed by a sequence of orders.
pub open spec fn orders_quantity(orders: Seq<Order>) -> nat
    decreases orders.len(),
{
    if orders.len() == 0 {
        0
    } else {
        orders_quantity(orders.drop_last()) + orders.last()@.executed_quantity as nat
    }
}

/// Value executed by a sequence of orders, each at its average price.
pub open spec fn orders_value(orders: Seq<Order>) -> nat
    decreases orders.len(),
{
    if orders.len() == 0 {
        0
    } else {
        orders_value(orders.drop_last()) + notional(
            orders.last()@.average_price,
            orders.last()@.executed_quantity,
        )
    }
}

/// Fees paid on a sequence of orders.
pub open spec fn orders_fees(orders: Seq<Order>) -> nat
    decreases orders.len(),
{
    if orders.len() == 0 {
        0
    } else {
        orders_fees(orders.drop_last()) + orders.last()@.fees_paid as nat
    }
}

/// One of the orders has the identifier `id`.
pub open spec fn holds_id(orders: Seq<Order>, id: u64) -> bool {
    exists|i: int| 0 <= i < orders.len() && (#[trigger] orders[i])@.id == id
}

/// No two of the orders have the same identifier.
pub open spec fn distinct_ids(orders: Seq<Order>) -> bool {
    forall|i: int, j: int|
        0 <= i < orders.len() && 0 <= j < orders.len() && i != j ==> (#[trigger] orders[i])@.id != (
        #[trigger] orders[j])@.id
}

/// Mathematical value of a trade.
pub struct TradeView {
    pub id: u64,
    pub exit_reason: Option<String>,
    /// Entry orders, oldest first.
    pub position: Seq<Order>,
    /// Exit orders, oldest first.
    pub exit_orders: Seq<Order>,
    pub is_placeholder: bool,
    pub average_price: u64,
    /// Cost basis: value of the entry orders.
    pub total_unspent: nat,
    /// Units of the entry orders.
    pub total_units: u64,
    /// Value of the exit orders.
    pub exit_value: nat,
    /// Fees of the entry and exit orders.
    pub fees: nat,
    pub ticks: u64,
    pub max: u64,
    pub min: u64,
    pub min_change: int,
    pub max_change: int,
    pub change: int,
    pub first_candle: Option<Candle>,
    pub finalized: bool,
    /// Units of the exit orders.
    pub finalized_quantity: u64,
    pub actual_profit_loss: int,
    pub actual_profit_loss_pct: int,
    /// The side that closes the position.
    pub side: OrderSide,
}

impl TradeView {
    /// A trade without orders.
    pub open spec fn empty(id: u64, side: OrderSide, is_placeholder: bool) -> TradeView {
        TradeView {
            id,
            exit_reason: None,
            position: Seq::empty(),
            exit_orders: Seq::empty(),
            is_placeholder,
            average_price: 0,
            total_unspent: 0,
            total_units: 0,
            exit_value: 0,
            fees: 0,
            ticks: 0,
            max: 0,
            min: 0,
            min_change: 0,
            max_change: 0,
            change: 0,
            first_candle: None,
            finalized: false,
            finalized_quantity: 0,
            actual_profit_loss: 0,
            actual_profit_loss_pct: 0,
            side,
        }
    }

    pub open spec fn wf(self) -> bool {
        &&& self.total_units == orders_quantity(self.position)
        &&& self.total_unspent == orders_value(self.position)
        &&& self.finalized_quantity == orders_quantity(self.exit_orders)
        &&& self.exit_value == orders_value(self.exit_orders)
        &&& self.fees == orders_fees(self.position) + orders_fees(self.exit_orders)
        &&& self.finalized_quantity <= self.total_units
        &&& self.total_unspent <= u64::MAX * self.total_units
        &&& self.average_price == if self.total_units == 0 {
            0
        } else {
            self.total_unspent / (self.total_units as nat)
        }
        &&& self.finalized ==> self.finalized_quantity == self.total_units
        &&& self.is_placeholder ==> self.position.len() == 0
        &&& distinct_ids(self.position)
        &&& distinct_ids(self.exit_orders)
        &&& self.total_unspent <= VALUE_LIMIT
        &&& self.exit_value <= VALUE_LIMIT
        &&& self.fees <= VALUE_LIMIT
    }

    /// The position is closed by selling: it gains when the price rises.
    pub open spec fn is_long(self) -> bool {
        self.side == OrderSide::Sell
    }

    /// The trade holds entry orders and is not finalized.
    pub open spec fn is_open(self) -> bool {
        !self.finalized && self.position.len() > 0
    }

    /// The trade takes `order` as an entry order.
    pub open spec fn accepts_entry(self, order: OrderView) -> bool {
        !self.finalized && !holds_id(self.position, order.id)
    }

    /// With `order` added to the entry orders the units held can still be
    /// counted and no total passes the value limit.
    pub open spec fn entry_fits(self, order: OrderView) -> bool {
        &&& self.total_units + order.executed_quantity <= u64::MAX
        &&& self.total_unspent + notional(order.average_price, order.executed_quantity)
            <= VALUE_LIMIT
        &&& self.fees + order.fees_paid <= VALUE_LIMIT
    }

    /// The trade after `order` is added to its entry orders.
    pub open spec fn entered(self, order: Order) -> TradeView {
        let units = self.total_units + order@.executed_quantity;
        let unspent = self.total_unspent + notional(
            order@.average_price,
            order@.executed_quantity,
        );
        TradeView {
            position: self.position.push(order),
            is_placeholder: false,
            total_units: units as u64,
            total_unspent: unspent,
            average_price: if units == 0 {
                0
            } else {
                (unspent / (units as nat)) as u64
            },
            fees: self.fees + order@.fees_paid as nat,
            ..self
        }
    }

    /// The trade takes `order` as an exit order.
    pub open spec fn accepts_exit(self, order: OrderView) -> bool {
        &&& self.is_open()
        &&& !holds_id(self.exit_orders, order.id)
        &&& self.finalized_quantity + order.executed_quantity <= self.total_units
    }

    /// With `order` added to the exit orders no total passes the value
    /// limit.
    pub open spec fn exit_fits(self, order: OrderView) -> bool {
        &&& self.exit_value + notional(order.average_price, order.executed_quantity)
            <= VALUE_LIMIT
        &&& self.fees + order.fees_paid <= VALUE_LIMIT
    }

    /// What the position has gained, fees taken off: exit value less
    /// entry value for a long position, entry value less exit value for
    /// a short one.
    pub open spec fn profit_loss(self) -> int {
        if self.is_long() {
            self.exit_value - self.total_unspent - self.fees
        } else {
            self.total_unspent - self.exit_value - self.fees
        }
    }

    /// The trade after `order` is added to its exit orders for `reason`.
    /// It is finalized when the exit orders have closed every unit.
    pub open spec fn exited(self, order: Order, reason: String) -> TradeView {
        let after = TradeView {
            exit_orders: self.exit_orders.push(order),
            exit_reason: Some(reason),
            finalized_quantity: (self.finalized_quantity + order@.executed_quantity) as u64,
            exit_value: self.exit_value + notional(
                order@.average_price,
                order@.executed_quantity,
            ),
            fees: self.fees + order@.fees_paid as nat,
            ..self
        };
        if after.finalized_quantity == after.total_units {
            TradeView {
                finalized: true,
                actual_profit_loss: after.profit_loss(),
                actual_profit_loss_pct: ratio_spec(after.profit_loss(), after.total_unspent),
                ..after
            }
        } else {
            after
        }
    }

    /// Change of the position at price `close`, in parts per million of
    /// its average price: positive when a long position sees a higher
    /// price or a short position a lower one.
    pub open spec fn change_at(self, close: u64) -> int {
        if self.is_long() {
            change_ratio_spec(self.average_price as nat, close as nat)
        } else {
            -change_ratio_spec(self.average_price as nat, close as nat)
        }
    }

    /// The trade after it has seen `candle`: unchanged unless it is open.
    pub open spec fn ticked(self, candle: Candle) -> TradeView {
        if !self.is_open() {
            self
        } else {
            let change = self.change_at(candle.close);
            TradeView {
                ticks: (self.ticks + 1) as u64,
                first_candle: if self.first_candle.is_none() {
                    Some(candle)
                } else {
                    self.first_candle
                },
                max: if self.first_candle.is_none() || candle.close > self.max {
                    candle.close
                } else {
                    self.max
                },
                min: if self.first_candle.is_none() || candle.close < self.min {
                    candle.close
                } else {
                    self.min
                },
                change,
                max_change: if change > self.max_change {
                    change
                } else {
                    self.max_change
                },
                min_change: if change < self.min_change {
                    change
                } else {
                    self.min_change
                },
                ..self
            }
        }
    }

    /// What `candle` changes in the extremes of the trade.
    pub open spec fn tick_outcome(self, candle: Candle) -> TickOutcome {
        TickOutcome {
            highest_profit: self.is_open() && self.change_at(candle.close) > self.max_change,
            worst_loss: self.is_open() && self.change_at(candle.close) < self.min_change,
        }
    }

    /// The trade after its extremes are set from `candle`: unchanged when
    /// it is finalized.
    pub open spec fn initialized(self, candle: Candle) -> TradeView {
        if self.finalized {
            self
        } else {
            TradeView {
                first_candle: Some(candle),
                max: candle.close,
                min: candle.close,
                ..self
            }
        }
    }
}

/// A finalized trade stays as it is: it takes no entry order and no exit
/// order, and candles and a new first candle change nothing in it. Its
/// finalized quantity is the quantity that its exit orders closed, all
/// that its entry orders held.
pub proof fn lemma_finalized_is_immutable(
    trade: TradeView,
    order: OrderView,
    candle: Candle,
)
    requires
        trade.wf(),
        trade.finalized,
    ensures
        !trade.accepts_entry(order),
        !trade.accepts_exit(order),
        trade.ticked(candle) == trade,
        trade.initialized(candle) == trade,
        trade.finalized_quantity == orders_quantity(trade.exit_orders),
        trade.finalized_quantity == trade.total_units,
{
}

#[derive(Debug)]
pub struct Trade {
    id: u64,
    exit_reason: Option<String>,
    position: Vec<Order>,
    exit_orders: Vec<Order>,
    is_placeholder: bool,
    average_price: u64,
    total_unspent: u128,
    total_units: u64,
    exit_value: u128,
    fees: u128,
    ticks: u64,
    max: u64,
    min: u64,
    min_change: i128,
    max_change: i128,
    change: i128,
    first_candle: Option<Candle>,
    finalized: bool,
    finalized_quantity: u64,
    actual_profit_loss: i128,
    actual_profit_loss_pct: i128,
    side: OrderSide,
}

impl View for Trade {
    type V = TradeView;

    closed spec fn view(&self) -> TradeView {
        TradeView {
            id: self.id,
            exit_reason: self.exit_reason,
            position: self.position@,
            exit_orders: self.exit_orders@,
            is_placeholder: self.is_placeholder,
            average_price: self.average_price,
            total_unspent: self.total_unspent as nat,
            total_units: self.total_units,
            exit_value: self.exit_value as nat,
            fees: self.fees as nat,
            ticks: self.ticks,
            max: self.max,
            min: self.min,
            min_change: self.min_change as int,
            max_change: self.max_change as int,
            change: self.change as int,
            first_candle: self.first_candle,
            finalized: self.finalized,
            finalized_quantity: self.finalized_quantity,
            actual_profit_loss: self.actual_profit_loss as int,
            actual_profit_loss_pct: self.actual_profit_loss_pct as int,
            side: self.side,
        }
    }
}

proof fn lemma_orders_push(orders: Seq<Order>, order: Order)
    ensures
        orders_quantity(orders.push(order)) == orders_quantity(orders)
            + order@.executed_quantity,
        orders_value(orders.push(order)) == orders_value(orders) + notional(
            order@.average_price,
            order@.executed_quantity,
        ),
        orders_fees(orders.push(order)) == orders_fees(orders) + order@.fees_paid,
        distinct_ids(orders) && !holds_id(orders, order@.id) ==> distinct_ids(orders.push(order)),
{
    let pushed = orders.push(order);
    assert(pushed.drop_last() =~= orders);
    assert(pushed.last() == order);
    if distinct_ids(orders) && !holds_id(orders, order@.id) {
        assert forall|i: int, j: int|
            0 <= i < pushed.len() && 0 <= j < pushed.len() && i != j implies (
        #[trigger] pushed[i])@.id != (#[trigger] pushed[j])@.id by {
            if i < orders.len() {
                assert(pushed[i] == orders[i]);
            }
            if j < orders.len() {
                assert(pushed[j] == orders[j]);
            }
        }
    }
}

proof fn lemma_average_fits(unspent: nat, units: nat)
    requires
        units > 0,
        unspent <= u64::MAX * units,
    ensures
        unspent / units <= u64::MAX,
{
    assert(unspent as int / units as int <= u64::MAX) by (nonlinear_arith)
        requires
            units > 0,
            0 <= unspent <= u64::MAX * units,
    ;
}

/// Whether one of `orders` has the identifier `id`.
fn holds_order(orders: &Vec<Order>, id: u64) -> (found: bool)
    ensures
        found == holds_id(orders@, id),
{
    let mut i: usize = 0;
    while i < orders.len()
        invariant
            i <= orders.len(),
            forall|j: int| 0 <= j < i ==> (#[trigger] orders@[j])@.id != id,
        decreases orders.len() - i,
    {
        if orders[i].internal_id() == id {
            return true;
        }
        i += 1;
    }
    false
}

impl Trade {
    pub open spec fn wf(&self) -> bool {
        self@.wf()
    }

    /// A trade for the position that `opening_order` opens: it is closed
    /// on the opposite side. The order itself is not added.
    pub fn new_from_order(id: u64, opening_order: &Order) -> (trade: Trade)
        ensures
            trade@ == TradeView::empty(id, opening_order@.request.side.opposite_spec(), false),
            trade.wf(),
    {
        let side: OrderSide = opening_order.order_request().side().opposite();
        Trade::new(id, side, false)
    }

    /// A trade without orders that is closed on `side`.
    pub fn new(id: u64, side: OrderSide, is_placeholder: bool) -> (trade: Trade)
        ensures
            trade@ == TradeView::empty(id, side, is_placeholder),
            trade.wf(),
    {
        let trade: Trade = Trade {
            id,
            exit_reason: None,
            position: Vec::new(),
            exit_orders: Vec::new(),
            is_placeholder,
            average_price: 0,
            total_unspent: 0,
            total_units: 0,
            exit_value: 0,
            fees: 0,
            ticks: 0,
            max: 0,
            min: 0,
            min_change: 0,
            max_change: 0,
            change: 0,
            first_candle: None,
            finalized: false,
            finalized_quantity: 0,
            actual_profit_loss: 0,
            actual_profit_loss_pct: 0,
            side,
        };
        assert(trade@.position =~= Seq::empty());
        assert(trade@.exit_orders =~= Seq::empty());
        trade
    }

    /// A trade that stands for an order not yet confirmed.
    pub fn create_placeholder(id: u64, side: OrderSide) -> (trade: Trade)
        ensures
            trade@ == TradeView::empty(id, side, true),
            trade.wf(),
    {
        Trade::new(id, side, true)
    }

    pub fn id(&self) -> (id: u64)
        ensures
            id == self@.id,
    {
        self.id
    }

    /// The side that closes the position.
    pub fn side(&self) -> (side: OrderSide)
        ensures
            side == self@.side,
    {
        self.side
    }

    pub fn is_placeholder(&self) -> (placeholder: bool)
        ensures
            placeholder == self@.is_placeholder,
    {
        self.is_placeholder
    }

    pub fn is_finalized(&self) -> (finalized: bool)
        ensures
            finalized == self@.finalized,
    {
        self.finalized
    }

    /// Units of the exit orders.
    pub fn finalized_quantity(&self) -> (quantity: u64)
        ensures
            quantity == self@.finalized_quantity,
    {
        self.finalized_quantity
    }

    pub fn average_price(&self) -> (price: u64)
        ensures
            price == self@.average_price,
    {
        self.average_price
    }

    /// Cost basis: value of the entry orders.
    pub fn total_unspent(&self) -> (unspent: u128)
        ensures
            unspent == self@.total_unspent,
    {
        self.total_unspent
    }

    /// Units of the entry orders.
    pub fn total_units(&self) -> (units: u64)
        ensures
            units == self@.total_units,
    {
        self.total_units
    }

    /// Value of the exit orders.
    pub fn exit_value(&self) -> (value: u128)
        ensures
            value == self@.exit_value,
    {
        self.exit_value
    }

    /// Fees of the entry and exit orders.
    pub fn fees(&self) -> (fees: u128)
        ensures
            fees == self@.fees,
    {
        self.fees
    }

    pub fn ticks(&self) -> (ticks: u64)
        ensures
            ticks == self@.ticks,
    {
        self.ticks
    }

    pub fn max(&self) -> (max: u64)
        ensures
            max == self@.max,
    {
        self.max
    }

    pub fn min(&self) -> (min: u64)
        ensures
            min == self@.min,
    {
        self.min
    }

    pub fn max_change(&self) -> (change: i128)
        ensures
            change == self@.max_change,
    {
        self.max_change
    }

    pub fn min_change(&self) -> (change: i128)
        ensures
            change == self@.min_change,
    {
        self.min_change
    }

    pub fn change(&self) -> (change: i128)
        ensures
            change == self@.change,
    {
        self.change
    }

    /// Profit or loss fixed when the trade was finalized, fees taken off.
    pub fn actual_profit_loss(&self) -> (profit_loss: i128)
        ensures
            profit_loss == self@.actual_profit_loss,
    {
        self.actual_profit_loss
    }

    /// Profit or loss fixed when the trade was finalized, in parts per
    /// million of the cost basis.
    pub fn actual_profit_loss_pct(&self) -> (ratio: i128)
        ensures
            ratio == self@.actual_profit_loss_pct,
    {
        self.actual_profit_loss_pct
    }

    pub fn first_candle(&self) -> (candle: Option<Candle>)
        ensures
            candle == self@.first_candle,
    {
        self.first_candle
    }

    pub fn is_long(&self) -> (long: bool)
        ensures
            long == self@.is_long(),
    {
        self.side == OrderSide::Sell
    }

    pub fn is_open(&self) -> (open: bool)
        ensures
            open == self@.is_open(),
    {
        !self.finalized && self.position.len() > 0
    }

    /// Why the latest exit order was placed.
    pub fn exit_reason(&self) -> (reason: &Option<String>)
        ensures
            *reason == self@.exit_reason,
    {
        &self.exit_reason
    }

    /// The entry orders, oldest first.
    pub fn position(&self) -> (orders: &Vec<Order>)
        ensures
            orders@ == self@.position,
    {
        &self.position
    }

    /// The exit orders, oldest first.
    pub fn exit_orders(&self) -> (orders: &Vec<Order>)
        ensures
            orders@ == self@.exit_orders,
    {
        &self.exit_orders
    }

    /// Sets the first candle and both price extremes from `first_candle`.
    /// A finalized trade stays as it is.
    pub fn init_trade(&mut self, first_candle: &Candle)
        requires
            old(self).wf(),
        ensures
            final(self).wf(),
            final(self)@ == old(self)@.initialized(*first_candle),
    {
        if self.finalized {
            return ;
        }
        self.first_candle = Some(*first_candle);
        self.max = first_candle.close;
        self.min = first_candle.close;
    }

    /// Whether the trade can hold the totals with `order` added to the
    /// entry orders.
    fn fits_entry(&self, order: &Order) -> (fits: bool)
        requires
            self.wf(),
        ensures
            fits == self@.entry_fits(order@),
    {
        let value: u128 = notional_of(order.average_price(), order.executed_quantity());
        order.executed_quantity() <= u64::MAX - self.total_units && value <= VALUE_LIMIT
            - self.total_unspent && order.fees_paid() as u128 <= VALUE_LIMIT - self.fees
    }

    /// Adds an entry order: its executed quantity to the units held and
    /// its value at its average price to the cost basis. A placeholder
    /// becomes a trade. Refused with `InvalidState` when the trade is
    /// finalized or already holds an entry order of that identifier, and
    /// else with `LimitExceeded` when the totals would pass what the
    /// trade can hold; a refused order changes nothing.
    pub fn increase_position(&mut self, order: Order) -> (result: Result<(), TradeError>)
        requires
            old(self).wf(),
        ensures
            final(self).wf(),
            match result {
                Ok(_) => old(self)@.accepts_entry(order@) && old(self)@.entry_fits(order@)
                    && final(self)@ == old(self)@.entered(order),
                Err(TradeError::InvalidState) => !old(self)@.accepts_entry(order@) && final(self)@
                    == old(self)@,
                Err(TradeError::LimitExceeded) => {
                    &&& old(self)@.accepts_entry(order@)
                    &&& !old(self)@.entry_fits(order@)
                    &&& final(self)@ == old(self)@
                },
            },
    {
        if self.finalized || holds_order(&self.position, order.internal_id()) {
            return Err(TradeError::InvalidState);
        }
        if !self.fits_entry(&order) {
            return Err(TradeError::LimitExceeded);
        }
        let units: u64 = self.total_units + order.executed_quantity();
        let value: u128 = notional_of(order.average_price(), order.executed_quantity());
        let unspent: u128 = self.total_unspent + value;
        proof {
            lemma_orders_push(self.position@, order);
            assert(notional(order@.average_price, order@.executed_quantity) <= u64::MAX
                * order@.executed_quantity) by {
                crate::units::lemma_notional_bound(
                    order@.average_price,
                    order@.executed_quantity,
                );
            }
            assert(u64::MAX * (self.total_units + order@.executed_quantity) == u64::MAX
                * self.total_units + u64::MAX * order@.executed_quantity) by (nonlinear_arith);
            if units > 0 {
                lemma_average_fits(unspent as nat, units as nat);
            }
        }
        self.fees = self.fees + order.fees_paid() as u128;
        self.total_units = units;
        self.total_unspent = unspent;
        self.average_price = average_of(unspent, units as u128) as u64;
        self.is_placeholder = false;
        self.position.push(order);
        Ok(())
    }

    /// Whether the trade can hold the totals with `order` added to the
    /// exit orders.
    fn fits_exit(&self, order: &Order) -> (fits: bool)
        requires
            self.wf(),
        ensures
            fits == self@.exit_fits(order@),
    {
        let value: u128 = notional_of(order.average_price(), order.executed_quantity());
        value <= VALUE_LIMIT - self.exit_value && order.fees_paid() as u128 <= VALUE_LIMIT
            - self.fees
    }

    /// Adds an exit order for `reason`: its executed quantity to the
    /// units closed and its value to the exit value. When every unit is
    /// closed the trade is finalized and its profit or loss fixed, and
    /// the result is `true`. Refused with `InvalidState` when the trade
    /// is not open, already holds an exit order of that identifier, or
    /// would close more units than it holds, and else with
    /// `LimitExceeded` when the totals would pass what the trade can
    /// hold; a refused order changes nothing.
    pub fn decrease_position(&mut self, order: Order, reason: String) -> (result: Result<
        bool,
        TradeError,
    >)
        requires
            old(self).wf(),
        ensures
            final(self).wf(),
            match result {
                Ok(finalized) => old(self)@.accepts_exit(order@) && old(self)@.exit_fits(order@)
                    && final(self)@ == old(self)@.exited(order, reason) && finalized
                    == final(self)@.finalized,
                Err(TradeError::InvalidState) => !old(self)@.accepts_exit(order@) && final(self)@
                    == old(self)@,
                Err(TradeError::LimitExceeded) => {
                    &&& old(self)@.accepts_exit(order@)
                    &&& !old(self)@.exit_fits(order@)
                    &&& final(self)@ == old(self)@
                },
            },
    {
        if self.finalized || self.position.len() == 0 || holds_order(
            &self.exit_orders,
            order.internal_id(),
        ) {
            return Err(TradeError::InvalidState);
        }
        if order.executed_quantity() > self.total_units - self.finalized_quantity {
            return Err(TradeError::InvalidState);
        }
        if !self.fits_exit(&order) {
            return Err(TradeError::LimitExceeded);
        }
        proof {
            lemma_orders_push(self.exit_orders@, order);
        }
        let value: u128 = notional_of(order.average_price(), order.executed_quantity());
        self.finalized_quantity = self.finalized_quantity + order.executed_quantity();
        self.exit_value = self.exit_value + value;
        self.fees = self.fees + order.fees_paid() as u128;
        self.exit_reason = Some(reason);
        self.exit_orders.push(order);
        if self.finalized_quantity == self.total_units {
            let gross: i128 = if self.side == OrderSide::Sell {
                self.exit_value as i128 - self.total_unspent as i128
            } else {
                self.total_unspent as i128 - self.exit_value as i128
            };
            let net: i128 = gross - self.fees as i128;
            self.actual_profit_loss = net;
            self.actual_profit_loss_pct = ratio_of(net, self.total_unspent);
            self.finalized = true;
        }
        Ok(self.finalized)
    }

    /// Charges `order` with what `fees` takes on the value it executed and
    /// adds it to the entry orders. The result is the fee charged.
    /// Refused with `InvalidState` when the trade does not take the
    /// order, and else with `LimitExceeded` when with that fee the totals
    /// would pass what the trade can hold: never where they would hold
    /// with the largest fee. A refused order changes nothing in the
    /// trade.
    pub fn increase_position_charged<F: TradingFees>(&mut self, order: Order, fees: &F) -> (result:
        Result<u64, TradeError>)
        requires
            old(self).wf(),
        ensures
            final(self).wf(),
            match result {
                Ok(fee) => {
                    &&& old(self)@.accepts_entry(order@)
                    &&& takes(
                        fees,
                        charged_amount(order@),
                        order@.request.order_type,
                        order@.request.side,
                        fee,
                    )
                    &&& final(self)@.position.len() == old(self)@.position.len() + 1
                    &&& final(self)@.position.last()@ == (OrderView { fees_paid: fee, ..order@ })
                    &&& old(self)@.entry_fits(final(self)@.position.last()@)
                    &&& final(self)@ == old(self)@.entered(final(self)@.position.last())
                },
                Err(TradeError::InvalidState) => !old(self)@.accepts_entry(order@) && final(self)@
                    == old(self)@,
                Err(TradeError::LimitExceeded) => {
                    &&& old(self)@.accepts_entry(order@)
                    &&& final(self)@ == old(self)@
                    &&& exists|fee: u64|
                        {
                            &&& #[trigger] takes(
                                fees,
                                charged_amount(order@),
                                order@.request.order_type,
                                order@.request.side,
                                fee,
                            )
                            &&& !old(self)@.entry_fits((OrderView { fees_paid: fee, ..order@ }))
                        }
                },
            },
            old(self)@.accepts_entry(order@) && old(self)@.entry_fits(
                (OrderView { fees_paid: u64::MAX, ..order@ }),
            ) ==> result.is_ok(),
    {
        let mut order: Order = order;
        let fee: u64 = charge(fees, &mut order);
        match self.increase_position(order) {
            Ok(()) => Ok(fee),
            Err(error) => Err(error),
        }
    }

    /// Charges `order` with what `fees` takes on the value it executed and
    /// adds it to the exit orders for `reason`. The result is the fee
    /// charged and whether the trade is finalized. Refused with
    /// `InvalidState` when the trade does not take the order, and else
    /// with `LimitExceeded` when with that fee the totals would pass what
    /// the trade can hold: never where they would hold with the largest
    /// fee. A refused order changes nothing in the trade.
    pub fn decrease_position_charged<F: TradingFees>(
        &mut self,
        order: Order,
        reason: String,
        fees: &F,
    ) -> (result: Result<(u64, bool), TradeError>)
        requires
            old(self).wf(),
        ensures
            final(self).wf(),
            match result {
                Ok((fee, finalized)) => {
                    &&& old(self)@.accepts_exit(order@)
                    &&& takes(
                        fees,
                        charged_amount(order@),
                        order@.request.order_type,
                        order@.request.side,
                        fee,
                    )
                    &&& final(self)@.exit_orders.len() == old(self)@.exit_orders.len() + 1
                    &&& final(self)@.exit_orders.last()@ == (OrderView { fees_paid: fee, ..order@ })
                    &&& old(self)@.exit_fits(final(self)@.exit_orders.last()@)
                    &&& final(self)@ == old(self)@.exited(final(self)@.exit_orders.last(), reason)
                    &&& finalized == final(self)@.finalized
                },
                Err(TradeError::InvalidState) => !old(self)@.accepts_exit(order@) && final(self)@
                    == old(self)@,
                Err(TradeError::LimitExceeded) => {
                    &&& old(self)@.accepts_exit(order@)
                    &&& final(self)@ == old(self)@
                    &&& exists|fee: u64|
                        {
                            &&& #[trigger] takes(
                                fees,
                                charged_amount(order@),
                                order@.request.order_type,
                                order@.request.side,
                                fee,
                            )
                            &&& !old(self)@.exit_fits((OrderView { fees_paid: fee, ..order@ }))
                        }
                },
            },
            old(self)@.accepts_exit(order@) && old(self)@.exit_fits(
                (OrderView { fees_paid: u64::MAX, ..order@ }),
            ) ==> result.is_ok(),
    {
        let mut order: Order = order;
        let fee: u64 = charge(fees, &mut order);
        match self.decrease_position(order, reason) {
            Ok(finalized) => Ok((fee, finalized)),
            Err(error) => Err(error),
        }
    }

    /// Counts `candle` for an open trade: the tick, the price extremes
    /// and the change with its extremes. The result says which of the
    /// two extremes of the change the candle moved.
    pub fn tick(&mut self, candle: &Candle) -> (outcome: TickOutcome)
        requires
            old(self).wf(),
            old(self)@.is_open() ==> old(self)@.ticks < u64::MAX,
        ensures
            final(self).wf(),
            final(self)@ == old(self)@.ticked(*candle),
            outcome == old(self)@.tick_outcome(*candle),
    {
        if self.finalized || self.position.len() == 0 {
            return TickOutcome { highest_profit: false, worst_loss: false };
        }
        let change: i128 = if self.side == OrderSide::Sell {
            positive_price_change_ratio(self.average_price, candle.close)
        } else {
            negative_price_change_ratio(self.average_price, candle.close)
        };
        let outcome: TickOutcome = TickOutcome {
            highest_profit: change > self.max_change,
            worst_loss: change < self.min_change,
        };
        let first: bool = self.first_candle.is_none();
        self.ticks = self.ticks + 1;
        if first {
            self.first_candle = Some(*candle);
        }
        if first || candle.close > self.max {
            self.max = candle.close;
        }
        if first || candle.close < self.min {
            self.min = candle.close;
        }
        self.change = change;
        if outcome.highest_profit {
            self.max_change = change;
        }
        if outcome.worst_loss {
            self.min_change = change;
        }
        outcome
    }
}

} // verus!
