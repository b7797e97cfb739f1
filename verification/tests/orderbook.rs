use std::collections::HashMap;
use trading_core::account::balance::Balance;
use trading_core::account::order::Order;
use trading_core::account::order_request::OrderRequest;
use trading_core::account::orderbook::{Level, OrderBook};
use trading_core::client_account::ClientAccount;

#[derive(Debug, PartialEq)]
struct Exchange(u8);

impl ClientAccount for Exchange {
    fn execute_order(order_details: OrderRequest) -> Order {
        Order::new_from_order_request(1, order_details)
    }

    fn update_balances(_force: bool) -> HashMap<String, Balance> {
        HashMap::new()
    }

    fn update_order_status(_order: Order) {}

    fn cancel(_order: Order) {}
}

fn level(price: u64, quantity: u64) -> Level {
    Level { price, quantity }
}

fn book(depth: u64) -> OrderBook<Exchange> {
    OrderBook::new(Exchange(7), "BTCUSDT".to_string(), depth)
}

#[test]
fn new_book_is_empty() {
    let b = book(5);
    assert!(b.is_empty());
    assert_eq!(b.get_depth(), 5);
    assert_eq!(b.symbol(), "BTCUSDT");
    assert_eq!(*b.client_account(), Exchange(7));
    assert!(b.bids().is_empty());
    assert!(b.asks().is_empty());
}

#[test]
fn bids_beyond_depth_evict_the_lowest() {
    let mut b = book(2);
    b.add_bid(100, 1);
    b.add_bid(99, 1);
    b.add_bid(98, 1);
    assert_eq!(*b.bids(), vec![level(100, 1), level(99, 1)]);
    assert!(!b.is_empty());
    assert!(b.asks().is_empty());
}

#[test]
fn a_better_bid_evicts_the_worst_bid() {
    let mut b = book(2);
    b.add_bid(99, 1);
    b.add_bid(98, 2);
    b.add_bid(100, 3);
    assert_eq!(*b.bids(), vec![level(100, 3), level(99, 1)]);
}

#[test]
fn asks_beyond_depth_evict_the_highest() {
    let mut b = book(2);
    b.add_ask(101, 1);
    b.add_ask(103, 1);
    b.add_ask(102, 1);
    assert_eq!(*b.asks(), vec![level(101, 1), level(102, 1)]);
    b.add_ask(100, 4);
    assert_eq!(*b.asks(), vec![level(100, 4), level(101, 1)]);
    b.add_ask(200, 4);
    assert_eq!(*b.asks(), vec![level(100, 4), level(101, 1)]);
    assert!(b.bids().is_empty());
}

#[test]
fn sides_never_exceed_the_depth() {
    let mut b = book(3);
    for i in 0..20u64 {
        b.add_bid(100 + (i * 7) % 11, i + 1);
        b.add_ask(200 + (i * 5) % 13, i + 1);
        assert!(b.bids().len() <= 3);
        assert!(b.asks().len() <= 3);
        for pair in b.bids().windows(2) {
            assert!(pair[0].price > pair[1].price);
        }
        for pair in b.asks().windows(2) {
            assert!(pair[0].price < pair[1].price);
        }
    }
    assert_eq!(b.bids()[0].price, 110);
    assert_eq!(b.asks()[0].price, 200);
}

#[test]
fn setting_a_price_again_replaces_its_quantity() {
    let mut b = book(3);
    b.add_bid(100, 1);
    b.add_bid(99, 2);
    b.add_bid(100, 5);
    assert_eq!(*b.bids(), vec![level(100, 5), level(99, 2)]);
    b.add_ask(101, 1);
    b.add_ask(101, 9);
    assert_eq!(*b.asks(), vec![level(101, 9)]);
}

#[test]
fn quantity_zero_withdraws_a_level() {
    let mut b = book(3);
    b.add_bid(100, 1);
    b.add_bid(99, 2);
    b.add_bid(98, 3);
    b.add_bid(99, 0);
    assert_eq!(*b.bids(), vec![level(100, 1), level(98, 3)]);
    b.add_bid(97, 0);
    assert_eq!(*b.bids(), vec![level(100, 1), level(98, 3)]);
    b.add_ask(101, 4);
    b.add_ask(101, 0);
    assert!(b.asks().is_empty());
    b.add_ask(105, 0);
    assert!(b.asks().is_empty());
}

#[test]
fn book_of_depth_zero_keeps_nothing() {
    let mut b = book(0);
    b.add_bid(100, 1);
    b.add_ask(101, 1);
    assert!(b.is_empty());
    assert_eq!(b.estimate_fill_price_asks(5), 0);
    assert_eq!(b.get_average_ask_amount_by_depth(3), 0);
}

#[test]
fn fill_cost_walks_the_asks_lowest_first() {
    let mut b = book(5);
    b.add_ask(102, 5);
    b.add_ask(101, 2);
    b.add_ask(105, 10);
    assert_eq!(b.estimate_fill_price_asks(0), 0);
    assert_eq!(b.estimate_fill_price_asks(1), 101);
    assert_eq!(b.estimate_fill_price_asks(2), 202);
    assert_eq!(b.estimate_fill_price_asks(3), 202 + 102);
    assert_eq!(b.estimate_fill_price_asks(7), 202 + 510);
    assert_eq!(b.estimate_fill_price_asks(8), 202 + 510 + 105);
    assert_eq!(b.estimate_fill_price_asks(17), 202 + 510 + 1_050);
    assert_eq!(b.get_average_ask_amount_by_quantity(8), 817);
}

#[test]
fn fill_cost_walks_the_bids_highest_first() {
    let mut b = book(5);
    b.add_bid(99, 5);
    b.add_bid(100, 2);
    b.add_bid(95, 10);
    assert_eq!(b.estimate_fill_price_bids(1), 100);
    assert_eq!(b.estimate_fill_price_bids(3), 200 + 99);
    assert_eq!(b.estimate_fill_price_bids(8), 200 + 495 + 95);
    assert_eq!(b.get_average_bid_amount_by_quantity(8), 790);
}

#[test]
fn fill_cost_of_more_than_the_book_holds_is_the_cost_of_all_of_it() {
    let mut b = book(5);
    b.add_ask(101, 2);
    b.add_ask(102, 5);
    assert_eq!(b.estimate_fill_price_asks(7), 712);
    assert_eq!(b.estimate_fill_price_asks(8), 712);
    assert_eq!(b.estimate_fill_price_asks(u64::MAX), 712);
    assert_eq!(b.estimate_fill_price_bids(3), 0);
}

#[test]
fn fill_cost_does_not_decrease_with_quantity() {
    let mut b = book(4);
    b.add_ask(101, 2);
    b.add_ask(102, 5);
    b.add_ask(110, 1);
    b.add_bid(99, 3);
    b.add_bid(90, 4);
    let mut last_ask = 0;
    let mut last_bid = 0;
    for quantity in 0..12u64 {
        let ask = b.estimate_fill_price_asks(quantity);
        let bid = b.estimate_fill_price_bids(quantity);
        assert!(ask >= last_ask);
        assert!(bid >= last_bid);
        last_ask = ask;
        last_bid = bid;
    }
}

#[test]
fn fill_cost_of_the_largest_amounts() {
    let mut b = book(2);
    b.add_ask(u64::MAX, u64::MAX);
    b.add_ask(u64::MAX - 1, u64::MAX);
    let whole = (u64::MAX as u128 - 1) * (u64::MAX as u128);
    assert_eq!(b.estimate_fill_price_asks(u64::MAX), whole);
    assert!(!b.can_average_by_depth(2));
    assert!(b.can_average_by_depth(1));
    assert_eq!(b.get_average_ask_amount_by_depth(1), u64::MAX - 1);
}

#[test]
fn average_by_depth_is_weighted_by_volume() {
    let mut b = book(5);
    b.add_ask(100, 1);
    b.add_ask(110, 3);
    b.add_ask(200, 6);
    b.add_bid(90, 2);
    b.add_bid(80, 2);
    assert!(b.can_average_by_depth(3));
    assert_eq!(b.get_average_ask_amount_by_depth(0), 0);
    assert_eq!(b.get_average_ask_amount_by_depth(1), 100);
    assert_eq!(b.get_average_ask_amount_by_depth(2), 107);
    assert_eq!(b.get_average_ask_amount_by_depth(3), 163);
    assert_eq!(b.get_average_ask_amount_by_depth(9), 163);
    assert_eq!(b.get_average_bid_amount_by_depth(1), 90);
    assert_eq!(b.get_average_bid_amount_by_depth(2), 85);
}

#[test]
fn average_by_depth_of_an_empty_side_is_zero() {
    let b = book(5);
    assert_eq!(b.get_average_ask_amount_by_depth(3), 0);
    assert_eq!(b.get_average_bid_amount_by_depth(3), 0);
}

#[test]
fn spread_is_per_unit() {
    let mut b = book(5);
    b.add_ask(101, 2);
    b.add_ask(103, 2);
    b.add_bid(99, 2);
    b.add_bid(97, 2);
    assert_eq!(b.get_spread_by_quantity(0), 0);
    assert_eq!(b.get_spread_by_quantity(1), 2);
    assert_eq!(b.get_spread_by_quantity(2), 2);
    assert_eq!(b.get_spread_by_quantity(4), 102 - 98);
    assert_eq!(b.get_spread_by_quantity(3), 101 - 98);
}

#[test]
fn spread_can_be_negative_when_asks_are_missing() {
    let mut b = book(5);
    b.add_bid(99, 2);
    assert_eq!(b.get_spread_by_quantity(2), -99);
}
