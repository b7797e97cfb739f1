//! Order requests: what a strategy wants done.
//!
//! A request carries its bracket legs, the requests to place on the
//! opposite side once it has filled. A leg that waits for a price is
//! created dormant and becomes active when its trigger fires.

use crate::account::order::{OrderSide, OrderType, TriggerCondition};
use crate::account::trade::TradeSide;
use vstd::prelude::*;

verus! {

#[derive(Debug, PartialEq, Eq)]
pub struct OrderRequest {
    pub assets_symbol: String,
    pub funds_symbol: String,
    pub side: OrderSide,
    pub trade_side: TradeSide,
    pub cancelled: bool,
    pub active: bool,
    pub time: u64,
    pub price: u64,
    pub quantity: u64,
    pub order_type: OrderType,
    /// Identifier of the order that this request submits again.
    pub resubmitted_from: Option<u64>,
    pub trigger_price: u64,
    pub trigger_condition: TriggerCondition,
    pub attached_requests: Vec<OrderRequest>,
}

/// A price moved by `change` parts per million of itself, the move
/// rounded toward zero.
pub open spec fn price_after_ratio(price: u64, change: i64) -> int {
    if change >= 0 {
        price + (price * change) / 1_000_000
    } else {
        price - (price * (-change)) / 1_000_000
    }
}

/// `copy` says what `source` says, leg by leg: the two differ at most
/// in where their bracket legs are stored.
pub open spec fn same_request(copy: OrderRequest, source: OrderRequest) -> bool
    decreases source,
{
    &&& copy == (OrderRequest { attached_requests: copy.attached_requests, ..source })
    &&& copy.attached_requests@.len() == source.attached_requests@.len()
    &&& forall|i: int|
        0 <= i < source.attached_requests@.len() ==> same_request(
            #[trigger] copy.attached_requests@[i],
            source.attached_requests@[i],
        )
}

impl Clone for OrderRequest {
    /// A copy of the request and of all its bracket legs.
    fn clone(&self) -> (copy: OrderRequest)
        ensures
            same_request(copy, *self),
        decreases self,
    {
        let mut legs: Vec<OrderRequest> = Vec::new();
        let mut i: usize = 0;
        while i < self.attached_requests.len()
            invariant
                i <= self.attached_requests.len(),
                legs@.len() == i,
                forall|j: int|
                    0 <= j < i ==> same_request(#[trigger] legs@[j], self.attached_requests@[j]),
            decreases self.attached_requests.len() - i,
        {
            legs.push(self.attached_requests[i].clone());
            i += 1;
        }
        OrderRequest {
            assets_symbol: self.assets_symbol.clone(),
            funds_symbol: self.funds_symbol.clone(),
            side: self.side,
            trade_side: self.trade_side,
            cancelled: self.cancelled,
            active: self.active,
            time: self.time,
            price: self.price,
            quantity: self.quantity,
            order_type: self.order_type,
            resubmitted_from: self.resubmitted_from,
            trigger_price: self.trigger_price,
            trigger_condition: self.trigger_condition,
            attached_requests: legs,
        }
    }
}

impl OrderRequest {
    /// `leg` is the bracket leg that `self` gets for `order_type` and
    /// `price`: on the opposite side, for the same symbols, quantity, time
    /// and direction, a stop loss below the price of `self` and a stop
    /// gain at or above it, dormant unless the price is zero.
    pub open spec fn has_bracket_leg(
        &self,
        leg: OrderRequest,
        order_type: OrderType,
        price: u64,
    ) -> bool {
        &&& leg.assets_symbol == self.assets_symbol
        &&& leg.funds_symbol == self.funds_symbol
        &&& leg.side == self.side.opposite_spec()
        &&& leg.trade_side == self.trade_side
        &&& !leg.cancelled
        &&& leg.active == (price == 0)
        &&& leg.time == self.time
        &&& leg.price == price
        &&& leg.quantity == self.quantity
        &&& leg.order_type == order_type
        &&& leg.resubmitted_from.is_none()
        &&& leg.trigger_price == price
        &&& leg.trigger_condition == if price < self.price {
            TriggerCondition::StopLoss
        } else {
            TriggerCondition::StopGain
        }
        &&& leg.attached_requests@.len() == 0
    }

    /// A request that is active at once, for a limit order with no price,
    /// no quantity and no bracket leg.
    pub fn new(
        assets_symbol: String,
        funds_symbol: String,
        side: OrderSide,
        trade_side: TradeSide,
        time: u64,
        resubmitted_from: Option<u64>,
    ) -> (request: OrderRequest)
        ensures
            request.assets_symbol == assets_symbol,
            request.funds_symbol == funds_symbol,
            request.side == side,
            request.trade_side == trade_side,
            request.time == time,
            request.resubmitted_from == resubmitted_from,
            request.active,
            !request.cancelled,
            request.price == 0,
            request.quantity == 0,
            request.order_type == OrderType::Limit,
            request.trigger_price == 0,
            request.trigger_condition == TriggerCondition::NoCondition,
            request.attached_requests@.len() == 0,
    {
        OrderRequest {
            assets_symbol,
            funds_symbol,
            side,
            trade_side,
            time,
            active: true,
            cancelled: false,
            price: 0,
            quantity: 0,
            order_type: OrderType::Limit,
            trigger_price: 0,
            trigger_condition: TriggerCondition::NoCondition,
            attached_requests: Vec::new(),
            resubmitted_from,
        }
    }

    pub fn assets_symbol(&self) -> (symbol: &str)
        ensures
            symbol@ == self.assets_symbol@,
    {
        self.assets_symbol.as_str()
    }

    pub fn funds_symbol(&self) -> (symbol: &str)
        ensures
            symbol@ == self.funds_symbol@,
    {
        self.funds_symbol.as_str()
    }

    /// The traded pair: the asset symbol followed by the funds symbol.
    pub fn symbol(&self) -> (symbol: String)
        ensures
            symbol@ == self.assets_symbol@ + self.funds_symbol@,
    {
        self.assets_symbol.clone().concat(self.funds_symbol.as_str())
    }

    pub fn price(&self) -> (price: u64)
        ensures
            price == self.price,
    {
        self.price
    }

    pub fn set_price(&mut self, price: u64)
        ensures
            *final(self) == (OrderRequest { price, ..*old(self) }),
    {
        self.price = price;
    }

    pub fn quantity(&self) -> (quantity: u64)
        ensures
            quantity == self.quantity,
    {
        self.quantity
    }

    pub fn set_quantity(&mut self, quantity: u64)
        ensures
            *final(self) == (OrderRequest { quantity, ..*old(self) }),
    {
        self.quantity = quantity;
    }

    pub fn side(&self) -> (side: &OrderSide)
        ensures
            *side == self.side,
    {
        &self.side
    }

    pub fn trade_side(&self) -> (trade_side: &TradeSide)
        ensures
            *trade_side == self.trade_side,
    {
        &self.trade_side
    }

    pub fn order_type(&self) -> (order_type: &OrderType)
        ensures
            *order_type == self.order_type,
    {
        &self.order_type
    }

    pub fn set_order_type(&mut self, order_type: OrderType)
        ensures
            *final(self) == (OrderRequest { order_type, ..*old(self) }),
    {
        self.order_type = order_type;
    }

    /// Value of the whole request at its price.
    pub fn total_order_amount(&self) -> (amount: u128)
        ensures
            amount == self.price * self.quantity,
    {
        crate::units::notional_of(self.price, self.quantity)
    }

    pub fn time(&self) -> (time: u64)
        ensures
            time == self.time,
    {
        self.time
    }

    pub fn is_cancelled(&self) -> (cancelled: bool)
        ensures
            cancelled == self.cancelled,
    {
        self.cancelled
    }

    pub fn cancel(&mut self)
        ensures
            *final(self) == (OrderRequest { cancelled: true, ..*old(self) }),
    {
        self.cancelled = true;
    }

    pub fn is_resubmission(&self) -> (resubmission: bool)
        ensures
            resubmission == self.resubmitted_from.is_some(),
    {
        self.resubmitted_from.is_some()
    }

    /// Identifier of the order that this request submits again, if any.
    pub fn orginal_order(&self) -> (source: &Option<u64>)
        ensures
            *source == self.resubmitted_from,
    {
        &self.resubmitted_from
    }

    pub fn is_short(&self) -> (short: bool)
        ensures
            short == (self.trade_side == TradeSide::SHORT),
    {
        self.trade_side == TradeSide::SHORT
    }

    pub fn is_long(&self) -> (long: bool)
        ensures
            long == (self.trade_side == TradeSide::LONG),
    {
        self.trade_side == TradeSide::LONG
    }

    pub fn is_buy(&self) -> (buy: bool)
        ensures
            buy == (self.side == OrderSide::Buy),
    {
        self.side == OrderSide::Buy
    }

    pub fn is_sell(&self) -> (sell: bool)
        ensures
            sell == (self.side == OrderSide::Sell),
    {
        self.side == OrderSide::Sell
    }

    pub fn is_long_buy(&self) -> (long_buy: bool)
        ensures
            long_buy == (self.trade_side == TradeSide::LONG && self.side == OrderSide::Buy),
    {
        self.is_long() && self.is_buy()
    }

    pub fn is_long_sell(&self) -> (long_sell: bool)
        ensures
            long_sell == (self.trade_side == TradeSide::LONG && self.side == OrderSide::Sell),
    {
        self.is_long() && self.is_sell()
    }

    pub fn is_short_sell(&self) -> (short_sell: bool)
        ensures
            short_sell == (self.trade_side == TradeSide::SHORT && self.side == OrderSide::Sell),
    {
        self.is_short() && self.is_sell()
    }

    pub fn is_short_cover(&self) -> (short_cover: bool)
        ensures
            short_cover == (self.trade_side == TradeSide::SHORT && self.side == OrderSide::Buy),
    {
        self.is_short() && self.is_buy()
    }

    pub fn update_time(&mut self, time: u64)
        ensures
            *final(self) == (OrderRequest { time, ..*old(self) }),
    {
        self.time = time;
    }

    /// The bracket legs, in the order in which they were attached.
    pub fn attached_order_requests(&self) -> (legs: &Vec<OrderRequest>)
        ensures
            *legs == self.attached_requests,
    {
        &self.attached_requests
    }

    pub fn trigger_condition(&self) -> (condition: &TriggerCondition)
        ensures
            *condition == self.trigger_condition,
    {
        &self.trigger_condition
    }

    pub fn trigger_price(&self) -> (price: u64)
        ensures
            price == self.trigger_price,
    {
        self.trigger_price
    }

    /// Sets the trigger. The request stays active only without a
    /// condition or with a trigger price of zero; a request that had no
    /// price takes the trigger price.
    pub fn set_trigger_condition(&mut self, trigger_condition: TriggerCondition, trigger_price: u64)
        ensures
            *final(self) == (OrderRequest {
                trigger_condition,
                trigger_price,
                active: trigger_condition == TriggerCondition::NoCondition || trigger_price == 0,
                price: if old(self).price == 0 {
                    trigger_price
                } else {
                    old(self).price
                },
                ..*old(self)
            }),
    {
        self.trigger_condition = trigger_condition;
        self.trigger_price = trigger_price;
        self.active = trigger_condition == TriggerCondition::NoCondition || trigger_price == 0;
        if self.price == 0 && self.trigger_price != 0 {
            self.price = trigger_price;
        }
    }

    pub fn activate(&mut self)
        ensures
            *final(self) == (OrderRequest { active: true, ..*old(self) }),
    {
        self.active = true;
    }

    pub fn is_active(&self) -> (active: bool)
        ensures
            active == (self.active && !self.cancelled),
    {
        self.active && !self.is_cancelled()
    }

    /// Attaches a bracket leg at `price`.
    pub fn attach_order_request(&mut self, order_type: OrderType, price: u64)
        ensures
            final(self).attached_requests@.len() == old(self).attached_requests@.len() + 1,
            final(self).attached_requests@.drop_last() == old(self).attached_requests@,
            old(self).has_bracket_leg(final(self).attached_requests@.last(), order_type, price),
            *final(self) == (OrderRequest {
                attached_requests: final(self).attached_requests,
                ..*old(self)
            }),
    {
        let mut attachment: OrderRequest = OrderRequest::new(
            self.assets_symbol.clone(),
            self.funds_symbol.clone(),
            self.side.opposite(),
            self.trade_side,
            self.time,
            None,
        );
        attachment.set_quantity(self.quantity);
        attachment.set_price(price);
        attachment.set_order_type(order_type);
        if price < self.price {
            attachment.set_trigger_condition(TriggerCondition::StopLoss, price);
        } else {
            attachment.set_trigger_condition(TriggerCondition::StopGain, price);
        }
        self.attached_requests.push(attachment);
        assert(final(self).attached_requests@.drop_last() =~= old(self).attached_requests@);
    }

    /// Attaches a bracket leg at the price of this request moved by
    /// `change` parts per million: 50_000 is five percent up.
    pub fn attach_to_percentage_change(&mut self, order_type: OrderType, change: i64)
        requires
            0 <= price_after_ratio(old(self).price, change) <= u64::MAX,
        ensures
            final(self).attached_requests@.len() == old(self).attached_requests@.len() + 1,
            final(self).attached_requests@.drop_last() == old(self).attached_requests@,
            old(self).has_bracket_leg(
                final(self).attached_requests@.last(),
                order_type,
                price_after_ratio(old(self).price, change) as u64,
            ),
            *final(self) == (OrderRequest {
                attached_requests: final(self).attached_requests,
                ..*old(self)
            }),
    {
        let magnitude: u128 = if change >= 0 {
            change as u128
        } else {
            (-(change as i128)) as u128
        };
        assert(self.price * magnitude <= 0xFFFF_FFFF_FFFF_FFFF * 0x8000_0000_0000_0000)
            by (nonlinear_arith)
            requires
                self.price <= 0xFFFF_FFFF_FFFF_FFFF,
                magnitude <= 0x8000_0000_0000_0000,
        ;
        let delta: u128 = (self.price as u128 * magnitude) / 1_000_000;
        let price: u128 = if change >= 0 {
            self.price as u128 + delta
        } else {
            self.price as u128 - delta
        };
        self.attach_order_request(order_type, price as u64);
    }

    /// Attaches a bracket leg at the price of this request plus
    /// `price_change` ticks.
    pub fn attach_to_price_change(&mut self, order_type: OrderType, price_change: i128)
        requires
            0 <= old(self).price + price_change <= u64::MAX,
        ensures
            final(self).attached_requests@.len() == old(self).attached_requests@.len() + 1,
            final(self).attached_requests@.drop_last() == old(self).attached_requests@,
            old(self).has_bracket_leg(
                final(self).attached_requests@.last(),
                order_type,
                (old(self).price + price_change) as u64,
            ),
            *final(self) == (OrderRequest {
                attached_requests: final(self).attached_requests,
                ..*old(self)
            }),
    {
        let price: i128 = self.price as i128 + price_change;
        self.attach_order_request(order_type, price as u64);
    }

    /// Attaches a bracket leg at the price of this request moved by
    /// `change` parts per million, if that is a price. Otherwise nothing
    /// changes and the result is `false`.
    pub fn try_attach_to_percentage_change(&mut self, order_type: OrderType, change: i64) -> (
        attached: bool
    )
        ensures
            attached == (0 <= price_after_ratio(old(self).price, change) <= u64::MAX),
            !attached ==> *final(self) == *old(self),
            attached ==> {
                &&& final(self).attached_requests@.len() == old(self).attached_requests@.len() + 1
                &&& final(self).attached_requests@.drop_last() == old(self).attached_requests@
                &&& old(self).has_bracket_leg(
                    final(self).attached_requests@.last(),
                    order_type,
                    price_after_ratio(old(self).price, change) as u64,
                )
                &&& *final(self) == (OrderRequest {
                    attached_requests: final(self).attached_requests,
                    ..*old(self)
                })
            },
    {
        let magnitude: u128 = if change >= 0 {
            change as u128
        } else {
            (-(change as i128)) as u128
        };
        assert(self.price * magnitude <= 0xFFFF_FFFF_FFFF_FFFF * 0x8000_0000_0000_0000)
            by (nonlinear_arith)
            requires
                self.price <= 0xFFFF_FFFF_FFFF_FFFF,
                magnitude <= 0x8000_0000_0000_0000,
        ;
        let delta: u128 = (self.price as u128 * magnitude) / 1_000_000;
        let fits: bool = if change >= 0 {
            delta <= (u64::MAX - self.price) as u128
        } else {
            delta <= self.price as u128
        };
        if fits {
            self.attach_to_percentage_change(order_type, change);
        }
        fits
    }

    /// Attaches a bracket leg at the price of this request plus
    /// `price_change` ticks, if that is a price. Otherwise nothing
    /// changes and the result is `false`.
    pub fn try_attach_to_price_change(&mut self, order_type: OrderType, price_change: i128) -> (
        attached: bool
    )
        ensures
            attached == (0 <= old(self).price + price_change <= u64::MAX),
            !attached ==> *final(self) == *old(self),
            attached ==> {
                &&& final(self).attached_requests@.len() == old(self).attached_requests@.len() + 1
                &&& final(self).attached_requests@.drop_last() == old(self).attached_requests@
                &&& old(self).has_bracket_leg(
                    final(self).attached_requests@.last(),
                    order_type,
                    (old(self).price + price_change) as u64,
                )
                &&& *final(self) == (OrderRequest {
                    attached_requests: final(self).attached_requests,
                    ..*old(self)
                })
            },
    {
        let fits: bool = price_change >= -(self.price as i128) && price_change <= (u64::MAX
            - self.price) as i128;
        if fits {
            self.attach_to_price_change(order_type, price_change);
        }
        fits
    }

    pub fn set_attached_order_requests(&mut self, order_requests: Vec<OrderRequest>)
        ensures
            *final(self) == (OrderRequest { attached_requests: order_requests, ..*old(self) }),
    {
        self.attached_requests = order_requests;
    }
}

} // verus!
