//! Orders: the execution record of a request, its fills and its status.
//!
//! An order starts `New`, takes any number of partial fills and ends
//! `Filled` or `Cancelled`. Each fill is first staged with its price and
//! quantity and then applied, which adds it to the executed quantity and
//! to the executed value; the average price is the executed value divided
//! by the executed quantity, so it is the quantity-weighted mean of the
//! fill prices whatever the number of fills.
//!
//! An order owns the orders attached to it, its bracket legs. Each leg
//! carries a link with the identifier, exchange identifier, status and
//! executed quantity of its parent, and every change of the parent
//! rewrites the links of its legs. Once the parent is final a leg is
//! sized by what the parent executed.

use crate::account::order_request::{same_request, OrderRequest};
use crate::account::trade::{Trade, TradeSide};
use crate::units::{notional, notional_of};
use std::cmp::Ordering;
use vstd::prelude::*;
use vstd::std_specs::cmp::{PartialEqSpecImpl, PartialOrdSpecImpl};

verus! {

#[derive(Clone, Copy, Debug, PartialEq, Eq, Structural)]
pub enum OrderSide {
    Buy,
    Sell,
}

impl OrderSide {
    pub open spec fn opposite_spec(self) -> OrderSide {
        match self {
            OrderSide::Buy => OrderSide::Sell,
            OrderSide::Sell => OrderSide::Buy,
        }
    }

    /// The side that closes what this side opens.
    pub fn opposite(&self) -> (side: OrderSide)
        ensures
            side == self.opposite_spec(),
    {
        match self {
            OrderSide::Buy => OrderSide::Sell,
            OrderSide::Sell => OrderSide::Buy,
        }
    }
}

#[derive(Clone, Copy, Debug, PartialEq, Eq, Structural)]
pub enum OrderType {
    Limit,
    Market,
}

impl Default for OrderType {
    fn default() -> (order_type: OrderType)
        ensures
            order_type == OrderType::Limit,
    {
        OrderType::Limit
    }
}

#[derive(Clone, Copy, Debug, PartialEq, Eq, Structural)]
pub enum OrderStatus {
    New,
    PartiallyFilled,
    Filled,
    Cancelled,
}

impl Default for OrderStatus {
    fn default() -> (status: OrderStatus)
        ensures
            status == OrderStatus::New,
    {
        OrderStatus::New
    }
}

impl OrderStatus {
    /// No further fill or cancellation can change a final status.
    pub open spec fn is_final(self) -> bool {
        self == OrderStatus::Filled || self == OrderStatus::Cancelled
    }
}

/// What makes a dormant request active.
#[derive(Clone, Copy, Debug, PartialEq, Eq, Structural)]
pub enum TriggerCondition {
    NoCondition,
    StopLoss,
    StopGain,
}

impl TriggerCondition {
    /// The short name of the condition, empty for no condition.
    pub open spec fn short_name_spec(self) -> Seq<char> {
        match self {
            TriggerCondition::StopLoss => "SL"@,
            TriggerCondition::StopGain => "SG"@,
            TriggerCondition::NoCondition => ""@,
        }
    }

    /// The stop condition that `text` is the short name of.
    pub open spec fn parse(text: Seq<char>) -> Option<TriggerCondition> {
        if text == "SL"@ {
            Some(TriggerCondition::StopLoss)
        } else if text == "SG"@ {
            Some(TriggerCondition::StopGain)
        } else {
            None
        }
    }

    /// Reads the short name of a stop condition: `"SL"` or `"SG"`.
    /// Anything else names no stop condition.
    pub fn from_str(s: &str) -> (condition: Option<TriggerCondition>)
        ensures
            condition == TriggerCondition::parse(s@),
    {
        proof {
            reveal_strlit("SL");
            reveal_strlit("SG");
        }
        if s.unicode_len() != 2 {
            return None;
        }
        let first: char = s.get_char(0);
        let second: char = s.get_char(1);
        if first == 'S' && second == 'L' {
            assert(s@ =~= "SL"@);
            Some(TriggerCondition::StopLoss)
        } else if first == 'S' && second == 'G' {
            assert(s@ =~= "SG"@);
            Some(TriggerCondition::StopGain)
        } else {
            None
        }
    }

    /// The short name of the condition, empty for no condition.
    pub fn short_name(&self) -> (name: &'static str)
        ensures
            name@ == self.short_name_spec(),
    {
        match self {
            TriggerCondition::StopLoss => "SL",
            TriggerCondition::StopGain => "SG",
            TriggerCondition::NoCondition => "",
        }
    }
}

/// The short name of a stop condition reads back as that condition, and
/// the empty name of no condition reads as nothing.
pub proof fn lemma_short_name_round_trip(condition: TriggerCondition)
    ensures
        TriggerCondition::parse(condition.short_name_spec()) == if condition
            == TriggerCondition::NoCondition {
            None
        } else {
            Some(condition)
        },
{
    reveal_strlit("SL");
    reveal_strlit("SG");
    reveal_strlit("");
    assert("SL"@[1] == 'L');
    assert("SG"@[1] == 'G');
    assert("SL"@.len() == 2);
    assert("SG"@.len() == 2);
    assert(""@.len() == 0);
}

/// Why a staged fill was not applied.
#[derive(Clone, Copy, Debug, PartialEq, Eq, Structural)]
pub enum FillError {
    /// No fill is staged.
    NothingStaged,
    /// The order is filled or cancelled.
    Finalized,
    /// The fill would execute more than the order asks for.
    Overfill,
}

/// What an attached order knows of the order that owns it.
#[derive(Debug, PartialEq, Eq)]
pub struct ParentLink {
    pub id: u64,
    pub order_id: String,
    pub status: OrderStatus,
    pub executed_quantity: u64,
}

impl Clone for ParentLink {
    fn clone(&self) -> (copy: ParentLink)
        ensures
            copy == *self,
    {
        ParentLink {
            id: self.id,
            order_id: self.order_id.clone(),
            status: self.status,
            executed_quantity: self.executed_quantity,
        }
    }
}

pub open spec fn digit_char(d: nat) -> char {
    if d == 0 {
        '0'
    } else if d == 1 {
        '1'
    } else if d == 2 {
        '2'
    } else if d == 3 {
        '3'
    } else if d == 4 {
        '4'
    } else if d == 5 {
        '5'
    } else if d == 6 {
        '6'
    } else if d == 7 {
        '7'
    } else if d == 8 {
        '8'
    } else {
        '9'
    }
}

/// The decimal digits of `n`, most significant first, without leading
/// zeros.
pub open spec fn decimal_digits(n: nat) -> Seq<char>
    decreases n,
{
    if n < 10 {
        seq![digit_char(n)]
    } else {
        decimal_digits(n / 10).push(digit_char(n % 10))
    }
}

fn digit_text(d: u64) -> (text: &'static str)
    requires
        d < 10,
    ensures
        text@ == seq![digit_char(d as nat)],
{
    proof {
        reveal_strlit("0");
        reveal_strlit("1");
        reveal_strlit("2");
        reveal_strlit("3");
        reveal_strlit("4");
        reveal_strlit("5");
        reveal_strlit("6");
        reveal_strlit("7");
        reveal_strlit("8");
        reveal_strlit("9");
    }
    let text: &'static str = if d == 0 {
        "0"
    } else if d == 1 {
        "1"
    } else if d == 2 {
        "2"
    } else if d == 3 {
        "3"
    } else if d == 4 {
        "4"
    } else if d == 5 {
        "5"
    } else if d == 6 {
        "6"
    } else if d == 7 {
        "7"
    } else if d == 8 {
        "8"
    } else {
        "9"
    };
    assert(text@ =~= seq![digit_char(d as nat)]);
    text
}

/// Writes `n` in decimal.
pub fn decimal_string(n: u64) -> (text: String)
    ensures
        text@ == decimal_digits(n as nat),
    decreases n,
{
    if n < 10 {
        String::from_str(digit_text(n))
    } else {
        let text: String = decimal_string(n / 10).concat(digit_text(n % 10));
        assert(text@ =~= decimal_digits((n / 10) as nat).push(digit_char((n % 10) as nat)));
        text
    }
}

/// Mathematical value of an order.
pub struct OrderView {
    pub id: u64,
    pub order_id: String,
    pub request: OrderRequest,
    pub processed: bool,
    pub status: OrderStatus,
    pub executed_quantity: u64,
    /// Sum over the applied fills of price times quantity.
    pub executed_value: nat,
    pub fees_paid: u64,
    pub average_price: u64,
    pub attachments: Seq<Order>,
    pub parent: Option<ParentLink>,
    pub partial_fill_price: u64,
    pub partial_fill_quantity: u64,
    /// Identifier of the trade that the order belongs to.
    pub trade: Option<u64>,
}

impl OrderView {
    pub open spec fn is_finalized(self) -> bool {
        self.status.is_final()
    }

    /// The link that the attachments of this order carry.
    pub open spec fn link(self) -> ParentLink {
        ParentLink {
            id: self.id,
            order_id: self.order_id,
            status: self.status,
            executed_quantity: self.executed_quantity,
        }
    }

    /// Every attachment carries the link of this order.
    pub open spec fn links_attachments(self) -> bool {
        forall|i: int|
            0 <= i < self.attachments.len() ==> (#[trigger] self.attachments[i])@.parent == Some(
                self.link(),
            )
    }

    /// The executed value is within what the executed quantity can have
    /// cost, and the average price is their quotient.
    pub open spec fn value_consistent(self) -> bool {
        &&& self.executed_value <= u64::MAX * self.executed_quantity
        &&& self.executed_quantity > 0 ==> self.average_price == self.executed_value
            / (self.executed_quantity as nat)
    }

    /// The quantity to execute: what was requested, or for an attachment
    /// whose parent is final, no more than the parent executed.
    pub open spec fn quantity(self) -> u64 {
        match self.parent {
            Some(parent) => if parent.status.is_final() && parent.executed_quantity
                < self.request.quantity {
                parent.executed_quantity
            } else {
                self.request.quantity
            },
            None => self.request.quantity,
        }
    }

    pub open spec fn has_partial_fill(self) -> bool {
        self.partial_fill_quantity > 0
    }

    /// This order with a fill staged.
    pub open spec fn stage(self, price: u64, quantity: u64) -> OrderView {
        OrderView { partial_fill_price: price, partial_fill_quantity: quantity, ..self }
    }

    /// The staged fill can be applied.
    pub open spec fn can_fold(self) -> bool {
        &&& self.has_partial_fill()
        &&& !self.is_finalized()
        &&& self.executed_quantity + self.partial_fill_quantity <= self.quantity()
    }

    /// This order after the staged fill is applied, but for the links of
    /// its attachments.
    pub open spec fn folded(self) -> OrderView {
        let executed = self.executed_quantity + self.partial_fill_quantity;
        let value = self.executed_value + notional(
            self.partial_fill_price,
            self.partial_fill_quantity,
        );
        OrderView {
            executed_quantity: executed as u64,
            executed_value: value,
            average_price: (value / (executed as nat)) as u64,
            status: if executed == self.quantity() {
                OrderStatus::Filled
            } else {
                OrderStatus::PartiallyFilled
            },
            partial_fill_price: 0,
            partial_fill_quantity: 0,
            ..self
        }
    }

    /// This order after the staged fill is applied or refused, but for the
    /// links of its attachments: a fill that cannot be applied stays
    /// staged and changes nothing else.
    pub open spec fn applied(self) -> OrderView {
        if self.can_fold() {
            self.folded()
        } else {
            self
        }
    }

    /// This order after each of `fills`, a price and a quantity, is staged
    /// and applied or refused in turn.
    pub open spec fn fill_all(self, fills: Seq<(u64, u64)>) -> OrderView
        decreases fills.len(),
    {
        if fills.len() == 0 {
            self
        } else {
            self.fill_all(fills.drop_last()).stage(fills.last().0, fills.last().1).applied()
        }
    }

    /// This order after a cancellation, but for the links of its
    /// attachments.
    pub open spec fn cancelled(self) -> OrderView {
        if self.status == OrderStatus::Filled {
            self
        } else {
            OrderView { status: OrderStatus::Cancelled, ..self }
        }
    }
}

/// `after` holds the orders of `before`, each with `link` as its link and
/// nothing else changed.
pub open spec fn relinked(before: Seq<Order>, after: Seq<Order>, link: ParentLink) -> bool {
    &&& after.len() == before.len()
    &&& forall|i: int|
        0 <= i < before.len() ==> (#[trigger] after[i])@ == (OrderView {
            parent: Some(link),
            ..before[i]@
        })
}

/// Total quantity of a sequence of fills.
pub open spec fn fills_quantity(fills: Seq<(u64, u64)>) -> nat
    decreases fills.len(),
{
    if fills.len() == 0 {
        0
    } else {
        fills_quantity(fills.drop_last()) + fills.last().1 as nat
    }
}

/// Total value of a sequence of fills, each a price and a quantity.
pub open spec fn fills_value(fills: Seq<(u64, u64)>) -> nat
    decreases fills.len(),
{
    if fills.len() == 0 {
        0
    } else {
        fills_value(fills.drop_last()) + notional(fills.last().0, fills.last().1)
    }
}

#[derive(Debug)]
pub struct Order {
    order_request: OrderRequest,
    id: u64,
    order_id: String,
    processed: bool,
    status: OrderStatus,
    executed_quantity: u64,
    executed_value: u128,
    fees_paid: u64,
    average_price: u64,
    attachments: Vec<Order>,
    parent: Option<ParentLink>,
    partial_fill_price: u64,
    partial_fill_quantity: u64,
    trade: Option<u64>,
}

impl View for Order {
    type V = OrderView;

    closed spec fn view(&self) -> OrderView {
        OrderView {
            id: self.id,
            order_id: self.order_id,
            request: self.order_request,
            processed: self.processed,
            status: self.status,
            executed_quantity: self.executed_quantity,
            executed_value: self.executed_value as nat,
            fees_paid: self.fees_paid,
            average_price: self.average_price,
            attachments: self.attachments@,
            parent: self.parent,
            partial_fill_price: self.partial_fill_price,
            partial_fill_quantity: self.partial_fill_quantity,
            trade: self.trade,
        }
    }
}

impl Order {
    /// The links of the attachments are current and the executed value
    /// agrees with the average price.
    pub open spec fn wf(&self) -> bool {
        &&& self@.links_attachments()
        &&& self@.value_consistent()
    }

    /// A new order with nothing executed, for a fresh request for the
    /// given symbols. Its exchange identifier is `id` in decimal.
    pub fn new(
        id: u64,
        asset_symbol: String,
        funds_symbol: String,
        side: OrderSide,
        trade_side: TradeSide,
        time: u64,
    ) -> (order: Order)
        ensures
            order.wf(),
            order@.id == id,
            order@.order_id@ == decimal_digits(id as nat),
            order@.request.assets_symbol == asset_symbol,
            order@.request.funds_symbol == funds_symbol,
            order@.request.side == side,
            order@.request.trade_side == trade_side,
            order@.request.time == time,
            order@.request.resubmitted_from.is_none(),
            order@.request.active,
            !order@.request.cancelled,
            order@.request.price == 0,
            order@.request.quantity == 0,
            order@.request.order_type == OrderType::Limit,
            order@.request.trigger_price == 0,
            order@.request.trigger_condition == TriggerCondition::NoCondition,
            order@.request.attached_requests@.len() == 0,
            order.is_fresh(),
    {
        let order_request: OrderRequest = OrderRequest::new(
            asset_symbol,
            funds_symbol,
            side,
            trade_side,
            time,
            None,
        );
        Order::new_from_order_request(id, order_request)
    }

    /// Nothing has happened to the order yet: it is `New`, nothing is
    /// executed, staged or paid, and it has no parent, attachment or trade.
    pub open spec fn is_fresh(&self) -> bool {
        &&& !self@.processed
        &&& self@.status == OrderStatus::New
        &&& self@.executed_quantity == 0
        &&& self@.executed_value == 0
        &&& self@.fees_paid == 0
        &&& self@.average_price == 0
        &&& self@.attachments.len() == 0
        &&& self@.parent.is_none()
        &&& self@.partial_fill_price == 0
        &&& self@.partial_fill_quantity == 0
        &&& self@.trade.is_none()
    }

    /// A new order for `order_request`, with nothing executed. Its
    /// exchange identifier is `id` in decimal.
    pub fn new_from_order_request(id: u64, order_request: OrderRequest) -> (order: Order)
        ensures
            order.wf(),
            order@.id == id,
            order@.order_id@ == decimal_digits(id as nat),
            order@.request == order_request,
            order.is_fresh(),
    {
        Order {
            id,
            order_request,
            order_id: decimal_string(id),
            processed: false,
            status: OrderStatus::New,
            executed_quantity: 0,
            executed_value: 0,
            fees_paid: 0,
            average_price: 0,
            attachments: Vec::new(),
            parent: None,
            partial_fill_price: 0,
            partial_fill_quantity: 0,
            trade: None,
        }
    }

    /// Rewrites the link of every attachment.
    fn sync_attachments(&mut self)
        ensures
            final(self)@ == (OrderView { attachments: final(self)@.attachments, ..old(self)@ }),
            relinked(old(self)@.attachments, final(self)@.attachments, old(self)@.link()),
            final(self)@.links_attachments(),
    {
        let mut i: usize = 0;
        while i < self.attachments.len()
            invariant
                i <= self.attachments.len(),
                self@ == (OrderView { attachments: self@.attachments, ..old(self)@ }),
                self@.attachments.len() == old(self)@.attachments.len(),
                forall|j: int|
                    0 <= j < i ==> (#[trigger] self@.attachments[j])@ == (OrderView {
                        parent: Some(old(self)@.link()),
                        ..old(self)@.attachments[j]@
                    }),
                forall|j: int|
                    i <= j < self@.attachments.len() ==> (#[trigger] self@.attachments[j])
                        == old(self)@.attachments[j],
            decreases self.attachments.len() - i,
        {
            let link: ParentLink = ParentLink {
                id: self.id,
                order_id: self.order_id.clone(),
                status: self.status,
                executed_quantity: self.executed_quantity,
            };
            self.attachments[i].parent = Some(link);
            i += 1;
        }
    }

    /// Attaches `attachment` to this order, as its last attachment and
    /// with this order as its parent.
    pub fn add_attachment(&mut self, attachment: Order)
        requires
            old(self).wf(),
        ensures
            final(self).wf(),
            final(self)@ == (OrderView { attachments: final(self)@.attachments, ..old(self)@ }),
            final(self)@.attachments.len() == old(self)@.attachments.len() + 1,
            final(self)@.attachments.drop_last() == old(self)@.attachments,
            final(self)@.attachments.last()@ == (OrderView {
                parent: Some(old(self)@.link()),
                ..attachment@
            }),
    {
        let mut attachment: Order = attachment;
        attachment.parent = Some(
            ParentLink {
                id: self.id,
                order_id: self.order_id.clone(),
                status: self.status,
                executed_quantity: self.executed_quantity,
            },
        );
        self.attachments.push(attachment);
        assert(self@.attachments.drop_last() =~= old(self)@.attachments);
    }

    pub fn order_id(&self) -> (order_id: String)
        ensures
            order_id == self@.order_id,
    {
        self.order_id.clone()
    }

    pub fn set_order_id(&mut self, order_id: String)
        requires
            old(self).wf(),
        ensures
            final(self).wf(),
            final(self)@ == (OrderView {
                order_id,
                attachments: final(self)@.attachments,
                ..old(self)@
            }),
            relinked(old(self)@.attachments, final(self)@.attachments, final(self)@.link()),
    {
        self.order_id = order_id;
        self.sync_attachments();
    }

    pub fn is_processed(&self) -> (processed: bool)
        ensures
            processed == self@.processed,
    {
        self.processed
    }

    pub fn set_processed(&mut self, processed: bool)
        ensures
            final(self)@ == (OrderView { processed, ..old(self)@ }),
            old(self).wf() ==> final(self).wf(),
    {
        self.processed = processed;
    }

    pub fn order_request(&self) -> (request: &OrderRequest)
        ensures
            *request == self@.request,
    {
        &self.order_request
    }

    pub fn executed_quantity(&self) -> (quantity: u64)
        ensures
            quantity == self@.executed_quantity,
    {
        self.executed_quantity
    }

    /// Sum over the applied fills of price times quantity.
    pub fn executed_value(&self) -> (value: u128)
        ensures
            value == self@.executed_value,
    {
        self.executed_value
    }

    /// Sets what the exchange reports as executed. The executed value
    /// becomes that quantity at the average price.
    pub fn set_executed_quantity(&mut self, executed_quantity: u64)
        requires
            old(self).wf(),
        ensures
            final(self).wf(),
            final(self)@ == (OrderView {
                executed_quantity,
                executed_value: notional(old(self)@.average_price, executed_quantity),
                attachments: final(self)@.attachments,
                ..old(self)@
            }),
            relinked(old(self)@.attachments, final(self)@.attachments, final(self)@.link()),
    {
        self.executed_quantity = executed_quantity;
        self.executed_value = notional_of(self.average_price, executed_quantity);
        proof {
            lemma_average_of_product(self.average_price, executed_quantity);
        }
        self.sync_attachments();
    }

    /// Value of the whole order at its average price, or at the requested
    /// price while nothing is executed.
    pub fn total_order_amount_at_average_price(&self) -> (amount: u128)
        ensures
            amount == if self@.average_price == 0 {
                notional(self@.request.price, self@.quantity())
            } else {
                notional(self@.average_price, self@.quantity())
            },
    {
        if self.average_price == 0 {
            notional_of(self.get_price(), self.quantity())
        } else {
            notional_of(self.average_price, self.quantity())
        }
    }

    pub fn get_price(&self) -> (price: u64)
        ensures
            price == self@.request.price,
    {
        self.order_request.price()
    }

    pub fn set_price(&mut self, price: u64)
        ensures
            final(self)@ == (OrderView {
                request: OrderRequest { price, ..old(self)@.request },
                ..old(self)@
            }),
            old(self).wf() ==> final(self).wf(),
    {
        self.order_request.set_price(price);
    }

    pub fn status(&self) -> (status: OrderStatus)
        ensures
            status == self@.status,
    {
        self.status
    }

    pub fn set_status(&mut self, status: OrderStatus)
        requires
            old(self).wf(),
        ensures
            final(self).wf(),
            final(self)@ == (OrderView {
                status,
                attachments: final(self)@.attachments,
                ..old(self)@
            }),
            relinked(old(self)@.attachments, final(self)@.attachments, final(self)@.link()),
    {
        self.status = status;
        self.sync_attachments();
    }

    /// Cancels the order unless it is filled: a filled order stays as it
    /// is, any other becomes `Cancelled` and keeps what it executed. The
    /// result says whether the order is cancelled: `false` reports that
    /// it was filled already.
    pub fn cancel(&mut self) -> (cancelled: bool)
        requires
            old(self).wf(),
        ensures
            final(self).wf(),
            cancelled == (old(self)@.status != OrderStatus::Filled),
            final(self)@ == (OrderView {
                attachments: final(self)@.attachments,
                ..old(self)@.cancelled()
            }),
            relinked(old(self)@.attachments, final(self)@.attachments, final(self)@.link()),
            !cancelled ==> final(self)@ == old(self)@,
    {
        if self.status == OrderStatus::Filled {
            proof {
                assert(self@.attachments =~= old(self)@.attachments);
            }
            return false;
        }
        self.status = OrderStatus::Cancelled;
        self.sync_attachments();
        true
    }

    pub fn is_cancelled(&self) -> (cancelled: bool)
        ensures
            cancelled == (self@.status == OrderStatus::Cancelled),
    {
        self.status == OrderStatus::Cancelled
    }

    pub fn fees_paid(&self) -> (fees: u64)
        ensures
            fees == self@.fees_paid,
    {
        self.fees_paid
    }

    pub fn set_fees_paid(&mut self, fees_paid: u64)
        ensures
            final(self)@ == (OrderView { fees_paid, ..old(self)@ }),
            old(self).wf() ==> final(self).wf(),
    {
        self.fees_paid = fees_paid;
    }

    pub fn average_price(&self) -> (price: u64)
        ensures
            price == self@.average_price,
    {
        self.average_price
    }

    /// Sets the average price that the exchange reports. The executed
    /// value becomes the executed quantity at that price.
    pub fn set_average_price(&mut self, average_price: u64)
        ensures
            final(self)@ == (OrderView {
                average_price,
                executed_value: notional(average_price, old(self)@.executed_quantity),
                ..old(self)@
            }),
            old(self).wf() ==> final(self).wf(),
    {
        self.average_price = average_price;
        self.executed_value = notional_of(average_price, self.executed_quantity);
        proof {
            lemma_average_of_product(average_price, self.executed_quantity);
        }
    }

    pub fn attachments(&self) -> (attachments: &Vec<Order>)
        ensures
            attachments@ == self@.attachments,
    {
        &self.attachments
    }

    pub fn parent(&self) -> (parent: &Option<ParentLink>)
        ensures
            *parent == self@.parent,
    {
        &self.parent
    }

    pub fn parent_order_id(&self) -> (order_id: Option<String>)
        ensures
            match order_id {
                Some(text) => self@.parent.is_some() && text == self@.parent.unwrap().order_id,
                None => self@.parent.is_none(),
            },
    {
        match &self.parent {
            Some(parent) => Some(parent.order_id.clone()),
            None => None,
        }
    }

    /// The quantity to execute, read from the link on every call: what
    /// was requested, or for an attachment whose parent is final, no more
    /// than the parent executed.
    pub fn quantity(&self) -> (quantity: u64)
        ensures
            quantity == self@.quantity(),
    {
        let out: u64 = self.order_request.quantity();
        match &self.parent {
            Some(parent) => {
                let parent_final: bool = parent.status == OrderStatus::Filled || parent.status
                    == OrderStatus::Cancelled;
                if parent_final {
                    let p: u64 = parent.executed_quantity;
                    if out > p || p == 0 {
                        return p;
                    }
                }
                out
            },
            None => out,
        }
    }

    pub fn set_quantity(&mut self, quantity: u64)
        ensures
            final(self)@ == (OrderView {
                request: OrderRequest { quantity, ..old(self)@.request },
                ..old(self)@
            }),
            old(self).wf() ==> final(self).wf(),
    {
        self.order_request.set_quantity(quantity);
    }

    pub fn has_partial_fill_details(&self) -> (staged: bool)
        ensures
            staged == self@.has_partial_fill(),
    {
        self.partial_fill_quantity > 0
    }

    pub fn clear_partial_fill_details(&mut self)
        ensures
            final(self)@ == old(self)@.stage(0, 0),
            old(self).wf() ==> final(self).wf(),
    {
        self.partial_fill_quantity = 0;
        self.partial_fill_price = 0;
    }

    /// Value of the staged fill.
    pub fn get_partial_fill_total_price(&self) -> (total: u128)
        ensures
            total == notional(self@.partial_fill_price, self@.partial_fill_quantity),
    {
        notional_of(self.partial_fill_price, self.partial_fill_quantity)
    }

    pub fn get_partial_fill_price(&self) -> (price: u64)
        ensures
            price == self@.partial_fill_price,
    {
        self.partial_fill_price
    }

    pub fn get_partial_fill_quantity(&self) -> (quantity: u64)
        ensures
            quantity == self@.partial_fill_quantity,
    {
        self.partial_fill_quantity
    }

    /// Stages the latest fill.
    pub fn set_partial_fill_details(&mut self, fill_price: u64, filled_quantity: u64)
        ensures
            final(self)@ == old(self)@.stage(fill_price, filled_quantity),
            old(self).wf() ==> final(self).wf(),
    {
        self.partial_fill_price = fill_price;
        self.partial_fill_quantity = filled_quantity;
    }

    /// Applies the staged fill and clears the staging area. The fill is
    /// refused, and nothing changes, when nothing is staged, when the
    /// order is final, or when the fill would execute more than the
    /// quantity of the order. Otherwise the order becomes `Filled` if the
    /// executed quantity has reached its quantity and `PartiallyFilled`
    /// if it has not.
    pub fn apply_partial_fill(&mut self) -> (result: Result<OrderStatus, FillError>)
        requires
            old(self).wf(),
        ensures
            final(self).wf(),
            final(self)@ == (OrderView {
                attachments: final(self)@.attachments,
                ..old(self)@.applied()
            }),
            match result {
                Ok(status) => {
                    &&& old(self)@.can_fold()
                    &&& final(self)@ == (OrderView {
                        attachments: final(self)@.attachments,
                        ..old(self)@.folded()
                    })
                    &&& relinked(
                        old(self)@.attachments,
                        final(self)@.attachments,
                        final(self)@.link(),
                    )
                    &&& status == final(self)@.status
                },
                Err(error) => {
                    &&& final(self)@ == old(self)@
                    &&& error == FillError::NothingStaged <==> !old(self)@.has_partial_fill()
                    &&& error == FillError::Finalized <==> {
                        &&& old(self)@.has_partial_fill()
                        &&& old(self)@.is_finalized()
                    }
                    &&& error == FillError::Overfill <==> {
                        &&& old(self)@.has_partial_fill()
                        &&& !old(self)@.is_finalized()
                        &&& old(self)@.executed_quantity + old(self)@.partial_fill_quantity > old(
                            self,
                        )@.quantity()
                    }
                },
            },
    {
        if self.partial_fill_quantity == 0 {
            return Err(FillError::NothingStaged);
        }
        if self.is_finalized() {
            return Err(FillError::Finalized);
        }
        let quantity: u64 = self.quantity();
        if self.partial_fill_quantity > quantity || self.executed_quantity > quantity
            - self.partial_fill_quantity {
            return Err(FillError::Overfill);
        }
        let executed: u64 = self.executed_quantity + self.partial_fill_quantity;
        let fill_value: u128 = notional_of(self.partial_fill_price, self.partial_fill_quantity);
        proof {
            lemma_value_after_fill(
                self.executed_value as nat,
                self.executed_quantity,
                self.partial_fill_price,
                self.partial_fill_quantity,
            );
        }
        let value: u128 = self.executed_value + fill_value;
        self.executed_quantity = executed;
        self.executed_value = value;
        self.average_price = (value / (executed as u128)) as u64;
        self.status = if executed == quantity {
            OrderStatus::Filled
        } else {
            OrderStatus::PartiallyFilled
        };
        self.partial_fill_price = 0;
        self.partial_fill_quantity = 0;
        self.sync_attachments();
        Ok(self.status)
    }

    pub fn internal_id(&self) -> (id: u64)
        ensures
            id == self@.id,
    {
        self.id
    }

    /// Records the trade that the order belongs to, by its identifier.
    pub fn set_trade(&mut self, trade: &Trade)
        ensures
            final(self)@ == (OrderView { trade: Some(trade@.id), ..old(self)@ }),
            old(self).wf() ==> final(self).wf(),
    {
        self.trade = Some(trade.id());
    }

    /// Identifier of the trade that the order belongs to.
    pub fn trade(&self) -> (trade: Option<u64>)
        ensures
            trade == self@.trade,
    {
        self.trade
    }

    /// Time from the request to `now`, in the unit of both.
    pub fn get_time_elapsed(&self, now: u64) -> (elapsed: u64)
        requires
            now >= self@.request.time,
        ensures
            elapsed == now - self@.request.time,
    {
        now - self.order_request.time()
    }

    /// Time from `close_time` to `now`, in the unit of both.
    pub fn get_time_elapsed_since_close(&self, now: u64, close_time: u64) -> (elapsed: u64)
        requires
            now >= close_time,
        ensures
            elapsed == now - close_time,
    {
        now - close_time
    }

    /// What is left to execute; negative when more was executed than
    /// the order asks for.
    pub fn get_remaining_quantity(&self) -> (remaining: i128)
        ensures
            remaining == self@.quantity() - self@.executed_quantity,
    {
        self.quantity() as i128 - self.executed_quantity as i128
    }

    /// Value of what was executed, at the requested price.
    pub fn get_total_traded_amount(&self) -> (amount: u128)
        ensures
            amount == notional(self@.request.price, self@.executed_quantity),
    {
        notional_of(self.get_price(), self.executed_quantity)
    }

    pub fn is_finalized(&self) -> (finalized: bool)
        ensures
            finalized == self@.is_finalized(),
    {
        self.status == OrderStatus::Filled || self.status == OrderStatus::Cancelled
    }

    /// Executed share of the quantity in parts per million, rounded
    /// down; zero for an order of quantity zero.
    pub fn get_filled_ratio(&self) -> (ratio: u128)
        ensures
            ratio == if self@.quantity() == 0 {
                0
            } else {
                (self@.executed_quantity * 1_000_000) / (self@.quantity() as int)
            },
    {
        let quantity: u64 = self.quantity();
        if quantity == 0 {
            return 0;
        }
        (self.executed_quantity as u128 * 1_000_000) / (quantity as u128)
    }

    /// `"Short"` for opening a short position, `"Cover"` for closing one,
    /// and the name of the side for a long position.
    pub fn side_description(&self) -> (description: String)
        ensures
            description@ == if self@.request.trade_side == TradeSide::SHORT {
                if self@.request.side == OrderSide::Buy {
                    "Short"@
                } else {
                    "Cover"@
                }
            } else if self@.request.side == OrderSide::Buy {
                "Buy"@
            } else {
                "Sell"@
            },
    {
        if self.order_request.is_short() {
            if self.order_request.is_buy() {
                String::from_str("Short")
            } else {
                String::from_str("Cover")
            }
        } else if self.order_request.is_buy() {
            String::from_str("Buy")
        } else {
            String::from_str("Sell")
        }
    }
}

proof fn lemma_average_of_product(price: u64, quantity: u64)
    ensures
        notional(price, quantity) <= u64::MAX * quantity,
        quantity > 0 ==> notional(price, quantity) / (quantity as nat) == price,
{
    assert((price as nat) * (quantity as nat) <= u64::MAX * quantity) by (nonlinear_arith)
        requires
            price <= u64::MAX,
    ;
    if quantity > 0 {
        assert(((price as nat) * (quantity as nat)) / (quantity as nat) == price as nat)
            by (nonlinear_arith)
            requires
                quantity > 0,
        ;
    }
}

proof fn lemma_value_after_fill(value: nat, executed: u64, price: u64, quantity: u64)
    requires
        value <= u64::MAX * executed,
        executed + quantity <= u64::MAX,
        quantity > 0,
    ensures
        value + notional(price, quantity) <= u64::MAX * (executed + quantity),
        u64::MAX * (executed + quantity) <= u128::MAX,
        (value + notional(price, quantity)) / ((executed + quantity) as nat) <= u64::MAX,
{
    let total: int = executed + quantity;
    assert((price as nat) * (quantity as nat) <= u64::MAX * quantity) by (nonlinear_arith)
        requires
            price <= u64::MAX,
    ;
    assert(u64::MAX * (executed + quantity) == u64::MAX * executed + u64::MAX * quantity)
        by (nonlinear_arith);
    assert(u64::MAX * total <= u64::MAX * u64::MAX) by (nonlinear_arith)
        requires
            total <= u64::MAX,
    ;
    let sum: int = (value + notional(price, quantity)) as int;
    assert(sum / total <= u64::MAX) by (nonlinear_arith)
        requires
            0 <= sum <= u64::MAX * total,
            total > 0,
    ;
}

/// Applying a sequence of fills, each of a positive quantity and all
/// together within the quantity of the order, to an order that is not
/// final adds the quantities and the values of the fills to what was
/// executed. The average price is then the executed value divided by the
/// executed quantity: for an order that had executed nothing, the
/// quantity-weighted mean of the fill prices. The order is `Filled`
/// exactly when the executed quantity equals its quantity, which the last
/// fill alone can bring about, and `PartiallyFilled` until then. Every
/// fill of the sequence can be applied when its turn comes.
pub proof fn lemma_fills_weighted_mean(order: OrderView, fills: Seq<(u64, u64)>)
    requires
        order.value_consistent(),
        !order.is_finalized(),
        fills.len() > 0,
        forall|i: int| 0 <= i < fills.len() ==> (#[trigger] fills[i]).1 > 0,
        order.executed_quantity + fills_quantity(fills) <= order.quantity(),
    ensures
        ({
            let end = order.fill_all(fills);
            &&& order.fill_all(fills.drop_last()).stage(fills.last().0, fills.last().1).can_fold()
            &&& end.value_consistent()
            &&& end.quantity() == order.quantity()
            &&& end.executed_quantity == order.executed_quantity + fills_quantity(fills)
            &&& end.executed_value == order.executed_value + fills_value(fills)
            &&& end.average_price == end.executed_value / (end.executed_quantity as nat)
            &&& end.status == OrderStatus::Filled <==> end.executed_quantity == order.quantity()
            &&& end.status == OrderStatus::PartiallyFilled <==> end.executed_quantity
                < order.quantity()
        }),
        order.executed_quantity == 0 && order.executed_value == 0 ==> order.fill_all(
            fills,
        ).average_price == fills_value(fills) / fills_quantity(fills),
    decreases fills.len(),
{
    let init = fills.drop_last();
    let last = fills.last();
    assert(last == fills[fills.len() - 1]);
    assert(last.1 > 0);
    if init.len() > 0 {
        assert forall|i: int| 0 <= i < init.len() implies (#[trigger] init[i]).1 > 0 by {
            assert(init[i] == fills[i]);
        }
        lemma_fills_weighted_mean(order, init);
    }
    let before = order.fill_all(init);
    assert(before.value_consistent());
    assert(!before.is_finalized());
    assert(before.quantity() == order.quantity());
    assert(before.executed_quantity == order.executed_quantity + fills_quantity(init));
    assert(before.executed_value == order.executed_value + fills_value(init));
    let staged = before.stage(last.0, last.1);
    assert(staged.quantity() == order.quantity());
    assert(staged.can_fold());
    lemma_value_after_fill(before.executed_value, before.executed_quantity, last.0, last.1);
    let end = staged.applied();
    assert(end == staged.folded());
    assert(end == order.fill_all(fills));
    assert(end.quantity() == order.quantity());
}

/// An order that is filled or cancelled takes no fill: whatever fills
/// are staged and applied, each is refused, and the order keeps its
/// status, what it executed and its average price.
pub proof fn lemma_final_order_takes_no_fill(order: OrderView, fills: Seq<(u64, u64)>)
    requires
        order.is_finalized(),
    ensures
        order.fill_all(fills).status == order.status,
        order.fill_all(fills).executed_quantity == order.executed_quantity,
        order.fill_all(fills).executed_value == order.executed_value,
        order.fill_all(fills).average_price == order.average_price,
        fills.len() > 0 ==> !order.fill_all(fills.drop_last()).stage(
            fills.last().0,
            fills.last().1,
        ).can_fold(),
    decreases fills.len(),
{
    if fills.len() > 0 {
        lemma_final_order_takes_no_fill(order, fills.drop_last());
    }
}

/// Cancelling changes nothing in a filled order and makes any other
/// order `Cancelled`, whatever it had executed; in both cases the
/// executed quantity and value stay as they were.
pub proof fn lemma_cancel(order: OrderView)
    ensures
        order.status == OrderStatus::Filled ==> order.cancelled() == order,
        order.status != OrderStatus::Filled ==> order.cancelled().status == OrderStatus::Cancelled,
        order.cancelled().executed_quantity == order.executed_quantity,
        order.cancelled().executed_value == order.executed_value,
        order.cancelled().average_price == order.average_price,
        order.cancelled().cancelled() == order.cancelled(),
{
}

/// Two orders are the same order when they have the same identifier.
impl PartialEq for Order {
    fn eq(&self, other: &Self) -> (r: bool) {
        self.id == other.id
    }
}

impl PartialEqSpecImpl for Order {
    open spec fn obeys_eq_spec() -> bool {
        true
    }

    open spec fn eq_spec(&self, other: &Self) -> bool {
        self@.id == other@.id
    }
}

impl Eq for Order {

}

/// Orders are ordered by identifier.
impl PartialOrd for Order {
    fn partial_cmp(&self, other: &Self) -> (r: Option<Ordering>) {
        if self.id < other.id {
            Some(Ordering::Less)
        } else if self.id == other.id {
            Some(Ordering::Equal)
        } else {
            Some(Ordering::Greater)
        }
    }
}

impl PartialOrdSpecImpl for Order {
    open spec fn obeys_partial_cmp_spec() -> bool {
        true
    }

    open spec fn partial_cmp_spec(&self, other: &Self) -> Option<Ordering> {
        if self@.id < other@.id {
            Some(Ordering::Less)
        } else if self@.id == other@.id {
            Some(Ordering::Equal)
        } else {
            Some(Ordering::Greater)
        }
    }
}

/// `copy` says what `source` says, attachment by attachment: the two
/// differ at most in where their requests and attachments are stored.
pub closed spec fn same_order(copy: Order, source: Order) -> bool
    decreases source,
{
    &&& copy@ == (OrderView { request: copy@.request, attachments: copy@.attachments, ..source@ })
    &&& same_request(copy.order_request, source.order_request)
    &&& copy.attachments@.len() == source.attachments@.len()
    &&& forall|i: int|
        0 <= i < source.attachments@.len() ==> same_order(
            #[trigger] copy.attachments@[i],
            source.attachments@[i],
        )
}

/// What it means for one order to say what another says.
pub proof fn lemma_same_order(copy: Order, source: Order)
    requires
        same_order(copy, source),
    ensures
        copy@ == (OrderView { request: copy@.request, attachments: copy@.attachments, ..source@ }),
        same_request(copy@.request, source@.request),
        copy@.attachments.len() == source@.attachments.len(),
        forall|i: int|
            0 <= i < source@.attachments.len() ==> same_order(
                #[trigger] copy@.attachments[i],
                source@.attachments[i],
            ),
        source.wf() ==> copy.wf(),
{
    assert forall|i: int| 0 <= i < copy@.attachments.len() && source.wf() implies (
    #[trigger] copy@.attachments[i])@.parent == Some(copy@.link()) by {
        assert(same_order(copy.attachments@[i], source.attachments@[i]));
        assert(source@.attachments[i]@.parent == Some(source@.link()));
    }
}

impl Clone for Order {
    /// A copy of the order and of all its attachments.
    fn clone(&self) -> (copy: Order)
        ensures
            same_order(copy, *self),
        decreases self,
    {
        let mut attachments: Vec<Order> = Vec::new();
        let mut i: usize = 0;
        while i < self.attachments.len()
            invariant
                i <= self.attachments.len(),
                attachments@.len() == i,
                forall|j: int|
                    0 <= j < i ==> same_order(#[trigger] attachments@[j], self.attachments@[j]),
            decreases self.attachments.len() - i,
        {
            attachments.push(self.attachments[i].clone());
            i += 1;
        }
        let parent: Option<ParentLink> = match &self.parent {
            Some(link) => Some(link.clone()),
            None => None,
        };
        Order {
            order_request: self.order_request.clone(),
            id: self.id,
            order_id: self.order_id.clone(),
            processed: self.processed,
            status: self.status,
            executed_quantity: self.executed_quantity,
            executed_value: self.executed_value,
            fees_paid: self.fees_paid,
            average_price: self.average_price,
            attachments,
            parent,
            partial_fill_price: self.partial_fill_price,
            partial_fill_quantity: self.partial_fill_quantity,
            trade: self.trade,
        }
    }
}

} // verus!
