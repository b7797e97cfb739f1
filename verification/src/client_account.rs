//! The connection to an exchange account.

use crate::account::balance::Balance;
use crate::account::order::Order;
use crate::account::order_request::OrderRequest;
use std::collections::HashMap;
use vstd::prelude::*;

verus! {

pub trait ClientAccount {
    /// Places the order that `order_details` asks for.
    fn execute_order(order_details: OrderRequest) -> Order;

    /// The balances of the account by symbol, read again from the
    /// exchange if `force`.
    fn update_balances(force: bool) -> HashMap<String, Balance>;

    fn update_order_status(order: Order);

    fn cancel(order: Order);

    /// Whether orders are only simulated: they are not, unless the
    /// account says otherwise.
    fn is_simulated() -> (simulated: bool)
        default_ensures
            !simulated,
    {
        false
    }

    /// The margin to hold back for a short sale, in percent of its value:
    /// 150, unless the account says otherwise.
    fn margin_reserve_percentage() -> (percentage: u64)
        default_ensures
            percentage == 150,
    {
        150
    }
}

} // verus!
