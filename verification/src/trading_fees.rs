//! The fee schedule of an exchange.
//!
//! A schedule says what fee it takes on an amount. What it takes on an
//! order, on a fill or to break even follows from that, unless the
//! schedule says otherwise.

use crate::account::order::{Order, OrderSide, OrderType, OrderView};
use crate::account::order_request::OrderRequest;
use crate::units::{notional, notional_of, ratio_of, ratio_spec};
use vstd::prelude::*;

verus! {

/// `fee` is what `fees` takes on `amount` for an order of the given type
/// and side.
pub open spec fn takes<F: TradingFees + ?Sized>(
    fees: &F,
    amount: nat,
    order_type: OrderType,
    order_side: OrderSide,
    fee: u64,
) -> bool {
    call_ensures(F::take_fee, (fees, amount as u128, order_type, order_side), fee)
}

/// Value of the whole order at the price of its request.
pub open spec fn order_amount(order: OrderView) -> nat {
    notional(order.request.price, order.quantity())
}

/// Value of what the order executed, at the price of its request.
pub open spec fn traded_amount(order: OrderView) -> nat {
    notional(order.request.price, order.executed_quantity)
}

/// Value of the fill that is staged in the order.
pub open spec fn partial_fill_amount(order: OrderView) -> nat {
    notional(order.partial_fill_price, order.partial_fill_quantity)
}

/// Value of the whole order at its average price, or at the price of its
/// request while nothing is executed.
pub open spec fn total_amount(order: OrderView) -> nat {
    if order.average_price == 0 {
        notional(order.request.price, order.quantity())
    } else {
        notional(order.average_price, order.quantity())
    }
}

/// Value that the fee on an order is charged on: what it executed at its
/// average price.
pub open spec fn charged_amount(order: OrderView) -> nat {
    notional(order.average_price, order.executed_quantity)
}

/// What is left of `amount` when `fee` is taken off it.
pub open spec fn after_fee(amount: nat, fee: u64) -> nat {
    if fee >= amount {
        0
    } else {
        (amount - fee) as nat
    }
}

pub trait TradingFees {
    /// The fee on `amount` for an order of the given type and side.
    fn take_fee(&self, amount: u128, order_type: OrderType, order_side: OrderSide) -> u64;

    /// The fee on the value of the whole order at the price of its
    /// request.
    fn fees_on_order(&self, order: &Order) -> (fee: u64)
        default_ensures
            call_ensures(
                Self::take_fee,
                (
                    self,
                    order_amount(order@) as u128,
                    order@.request.order_type,
                    order@.request.side,
                ),
                fee,
            ),
    {
        let amount: u128 = notional_of(order.get_price(), order.quantity());
        self.take_fee(amount, *order.order_request().order_type(), *order.order_request().side())
    }

    /// The fee on the value of the whole request.
    fn fees_on_order_request(&self, order_request: &OrderRequest) -> (fee: u64)
        default_ensures
            call_ensures(
                Self::take_fee,
                (
                    self,
                    notional(order_request.price, order_request.quantity) as u128,
                    order_request.order_type,
                    order_request.side,
                ),
                fee,
            ),
    {
        let amount: u128 = order_request.total_order_amount();
        self.take_fee(amount, *order_request.order_type(), *order_request.side())
    }

    /// The fee on the value of what the order executed, at the price of
    /// its request; no fee where it executed nothing of value.
    fn fees_on_traded_amount(&self, order: &Order) -> (fee: u64)
        default_ensures
            traded_amount(order@) == 0 ==> fee == 0,
            traded_amount(order@) != 0 ==> call_ensures(
                Self::take_fee,
                (
                    self,
                    traded_amount(order@) as u128,
                    order@.request.order_type,
                    order@.request.side,
                ),
                fee,
            ),
    {
        let amount: u128 = order.get_total_traded_amount();
        if amount == 0 {
            return 0;
        }
        self.take_fee(amount, *order.order_request().order_type(), *order.order_request().side())
    }

    /// The fee on the value of the fill staged in the order; no fee where
    /// nothing of value is staged.
    fn fees_on_partial_fill(&self, order: &Order) -> (fee: u64)
        default_ensures
            partial_fill_amount(order@) == 0 ==> fee == 0,
            partial_fill_amount(order@) != 0 ==> call_ensures(
                Self::take_fee,
                (
                    self,
                    partial_fill_amount(order@) as u128,
                    order@.request.order_type,
                    order@.request.side,
                ),
                fee,
            ),
    {
        let amount: u128 = order.get_partial_fill_total_price();
        if amount == 0 {
            return 0;
        }
        self.take_fee(amount, *order.order_request().order_type(), *order.order_request().side())
    }

    /// The fee on the value of the fill staged in the order, whatever
    /// that value.
    fn fees_on_amount(&self, order: &Order) -> (fee: u64)
        default_ensures
            call_ensures(
                Self::take_fee,
                (
                    self,
                    partial_fill_amount(order@) as u128,
                    order@.request.order_type,
                    order@.request.side,
                ),
                fee,
            ),
    {
        let amount: u128 = order.get_partial_fill_total_price();
        self.take_fee(amount, *order.order_request().order_type(), *order.order_request().side())
    }

    /// The fee on the value of the whole order at its average price, or
    /// at the price of its request while nothing is executed.
    fn fees_on_total_order_amount(&self, order: &Order) -> (fee: u64)
        default_ensures
            call_ensures(
                Self::take_fee,
                (
                    self,
                    total_amount(order@) as u128,
                    order@.request.order_type,
                    order@.request.side,
                ),
                fee,
            ),
    {
        let amount: u128 = order.total_order_amount_at_average_price();
        self.take_fee(amount, *order.order_request().order_type(), *order.order_request().side())
    }

    /// What the order must bring to pay for itself: its value at the price
    /// of its request, and the fee on a limit order to buy taken twice,
    /// on that value and on what the first fee leaves of it.
    fn get_break_even_amount(&self, order: &Order) -> (amount: u128)
        default_ensures
            exists|first: u64, second: u64|
                {
                    &&& #[trigger] call_ensures(
                        Self::take_fee,
                        (self, order_amount(order@) as u128, OrderType::Limit, OrderSide::Buy),
                        first,
                    )
                    &&& #[trigger] call_ensures(
                        Self::take_fee,
                        (
                            self,
                            after_fee(order_amount(order@), first) as u128,
                            OrderType::Limit,
                            OrderSide::Buy,
                        ),
                        second,
                    )
                    &&& amount == order_amount(order@) + first + second
                },
    {
        let value: u128 = notional_of(order.get_price(), order.quantity());
        let first: u64 = self.take_fee(value, OrderType::Limit, OrderSide::Buy);
        let left: u128 = if first as u128 >= value {
            0
        } else {
            value - first as u128
        };
        let second: u64 = self.take_fee(left, OrderType::Limit, OrderSide::Buy);
        proof {
            crate::units::lemma_notional_bound(order@.request.price, order@.quantity());
            assert(0xFFFF_FFFF_FFFF_FFFF * 0xFFFF_FFFF_FFFF_FFFF + 2 * 0xFFFF_FFFF_FFFF_FFFF
                <= u128::MAX) by (nonlinear_arith);
            assert(call_ensures(
                Self::take_fee,
                (self, order_amount(order@) as u128, OrderType::Limit, OrderSide::Buy),
                first,
            ));
            assert(call_ensures(
                Self::take_fee,
                (
                    self,
                    after_fee(order_amount(order@), first) as u128,
                    OrderType::Limit,
                    OrderSide::Buy,
                ),
                second,
            ));
        }
        value + first as u128 + second as u128
    }

    /// The two fees to break even, in parts per million of the value of
    /// the order at the price of its request; zero for an order of no
    /// value.
    fn get_break_even_change(&self, order: &Order) -> (change: i128)
        default_ensures
            order_amount(order@) == 0 ==> change == 0,
            order_amount(order@) != 0 ==> exists|first: u64, second: u64|
                {
                    &&& #[trigger] call_ensures(
                        Self::take_fee,
                        (self, order_amount(order@) as u128, OrderType::Limit, OrderSide::Buy),
                        first,
                    )
                    &&& #[trigger] call_ensures(
                        Self::take_fee,
                        (
                            self,
                            after_fee(order_amount(order@), first) as u128,
                            OrderType::Limit,
                            OrderSide::Buy,
                        ),
                        second,
                    )
                    &&& change == ratio_spec(first + second, order_amount(order@))
                },
    {
        let value: u128 = notional_of(order.get_price(), order.quantity());
        if value == 0 {
            return 0;
        }
        let first: u64 = self.take_fee(value, OrderType::Limit, OrderSide::Buy);
        let left: u128 = if first as u128 >= value {
            0
        } else {
            value - first as u128
        };
        let second: u64 = self.take_fee(left, OrderType::Limit, OrderSide::Buy);
        proof {
            assert(call_ensures(
                Self::take_fee,
                (self, order_amount(order@) as u128, OrderType::Limit, OrderSide::Buy),
                first,
            ));
            assert(call_ensures(
                Self::take_fee,
                (
                    self,
                    after_fee(order_amount(order@), first) as u128,
                    OrderType::Limit,
                    OrderSide::Buy,
                ),
                second,
            ));
        }
        ratio_of(first as i128 + second as i128, value)
    }
}

/// Sets the fees paid on `order` to what `fees` takes on the value that
/// the order executed at its average price, for its type and side.
/// Nothing else changes in the order, whatever the fee.
pub fn charge<F: TradingFees>(fees: &F, order: &mut Order) -> (fee: u64)
    ensures
        takes(
            fees,
            charged_amount(old(order)@),
            old(order)@.request.order_type,
            old(order)@.request.side,
            fee,
        ),
        final(order)@ == (OrderView { fees_paid: fee, ..old(order)@ }),
        old(order).wf() ==> final(order).wf(),
{
    let amount: u128 = notional_of(order.average_price(), order.executed_quantity());
    let order_type: OrderType = *order.order_request().order_type();
    let order_side: OrderSide = *order.order_request().side();
    let fee: u64 = fees.take_fee(amount, order_type, order_side);
    order.set_fees_paid(fee);
    fee
}

} // verus!
