use trading_core::account::order::{Order, OrderSide};
use trading_core::account::trade::{
    negative_price_change_ratio, positive_price_change_ratio, TickOutcome, Trade, TradeError,
    TradeSide, VALUE_LIMIT,
};
use trading_core::candles::candle::Candle;

fn fill(id: u64, side: OrderSide, price: u64, quantity: u64, fee: u64) -> Order {
    let mut order = Order::new(id, "BTC".to_string(), "USDT".to_string(), side, TradeSide::LONG, 0);
    order.set_quantity(quantity);
    order.set_partial_fill_details(price, quantity);
    if quantity > 0 {
        order.apply_partial_fill().unwrap();
    }
    order.set_fees_paid(fee);
    order
}

fn close_at(price: u64) -> Candle {
    Candle::new(0, 59_999, price, price, price, price, 1)
}

#[test]
fn price_change_ratios() {
    assert_eq!(positive_price_change_ratio(100, 110), 100_000);
    assert_eq!(positive_price_change_ratio(100, 90), -100_000);
    assert_eq!(negative_price_change_ratio(100, 110), -100_000);
    assert_eq!(negative_price_change_ratio(100, 90), 100_000);
    assert_eq!(positive_price_change_ratio(0, 90), 0);
    assert_eq!(negative_price_change_ratio(0, 90), 0);
}

#[test]
fn new_trade_holds_nothing() {
    let trade = Trade::new(7, OrderSide::Sell, false);
    assert_eq!(trade.id(), 7);
    assert_eq!(trade.side(), OrderSide::Sell);
    assert!(trade.is_long());
    assert!(!trade.is_placeholder());
    assert!(!trade.is_finalized());
    assert!(!trade.is_open());
    assert_eq!(trade.total_units(), 0);
    assert_eq!(trade.total_unspent(), 0);
    assert_eq!(trade.average_price(), 0);
    assert_eq!(trade.finalized_quantity(), 0);
    assert_eq!(trade.ticks(), 0);
    assert_eq!(trade.actual_profit_loss(), 0);
    assert_eq!(*trade.exit_reason(), None);
    assert_eq!(trade.first_candle(), None);
    assert!(trade.position().is_empty());
    assert!(trade.exit_orders().is_empty());
}

#[test]
fn new_from_order_closes_on_the_opposite_side() {
    let buy = fill(1, OrderSide::Buy, 100, 1, 0);
    let trade = Trade::new_from_order(5, &buy);
    assert_eq!(trade.side(), OrderSide::Sell);
    assert!(trade.position().is_empty());
    assert!(!trade.is_placeholder());
    let sell = fill(2, OrderSide::Sell, 100, 1, 0);
    let short = Trade::new_from_order(6, &sell);
    assert_eq!(short.side(), OrderSide::Buy);
    assert!(!short.is_long());
}

#[test]
fn placeholder_becomes_a_trade_with_its_first_entry() {
    let mut trade = Trade::create_placeholder(9, OrderSide::Sell);
    assert!(trade.is_placeholder());
    assert!(!trade.is_open());
    assert_eq!(
        trade.decrease_position(fill(3, OrderSide::Sell, 100, 0, 0), "early".to_string()),
        Err(TradeError::InvalidState)
    );
    assert_eq!(trade.increase_position(fill(1, OrderSide::Buy, 100, 1, 0)), Ok(()));
    assert!(!trade.is_placeholder());
    assert!(trade.is_open());
    assert_eq!(trade.id(), 9);
}

#[test]
fn entries_build_the_cost_basis() {
    let mut trade = Trade::new(1, OrderSide::Sell, false);
    let first = fill(1, OrderSide::Buy, 100, 2, 1);
    let second = fill(2, OrderSide::Buy, 130, 1, 2);
    trade.increase_position(first).unwrap();
    assert_eq!(trade.total_units(), 2);
    assert_eq!(trade.total_unspent(), 200);
    assert_eq!(trade.average_price(), 100);
    trade.increase_position(second).unwrap();
    assert_eq!(trade.total_units(), 3);
    assert_eq!(trade.total_unspent(), 330);
    assert_eq!(trade.average_price(), 110);
    assert_eq!(trade.fees(), 3);
    assert_eq!(trade.position().len(), 2);
    assert_eq!(trade.position()[1].internal_id(), 2);
}

#[test]
fn an_entry_is_taken_once() {
    let mut trade = Trade::new(1, OrderSide::Sell, false);
    trade.increase_position(fill(1, OrderSide::Buy, 100, 2, 1)).unwrap();
    assert_eq!(
        trade.increase_position(fill(1, OrderSide::Buy, 100, 2, 1)),
        Err(TradeError::InvalidState)
    );
    assert_eq!(trade.total_units(), 2);
    assert_eq!(trade.position().len(), 1);
}

#[test]
fn profit_of_a_long_trade_is_net_of_fees() {
    let mut trade = Trade::new(1, OrderSide::Sell, false);
    trade.increase_position(fill(1, OrderSide::Buy, 100, 1, 1)).unwrap();
    let exit = fill(2, OrderSide::Sell, 110, 1, 1);
    assert_eq!(trade.decrease_position(exit, "OppositeSignal".to_string()), Ok(true));
    assert!(trade.is_finalized());
    assert!(!trade.is_open());
    assert_eq!(trade.finalized_quantity(), 1);
    assert_eq!(trade.exit_value(), 110);
    assert_eq!(trade.fees(), 2);
    assert_eq!(trade.actual_profit_loss(), 8);
    assert_eq!(trade.actual_profit_loss_pct(), 80_000);
    assert_eq!(*trade.exit_reason(), Some("OppositeSignal".to_string()));
    assert_eq!(trade.exit_orders().len(), 1);
}

#[test]
fn loss_of_a_long_trade() {
    let mut trade = Trade::new(1, OrderSide::Sell, false);
    trade.increase_position(fill(1, OrderSide::Buy, 100, 3, 0)).unwrap();
    trade.decrease_position(fill(2, OrderSide::Sell, 90, 3, 3), "StopLoss".to_string()).unwrap();
    assert_eq!(trade.actual_profit_loss(), -33);
    assert_eq!(trade.actual_profit_loss_pct(), -110_000);
}

#[test]
fn profit_of_a_short_trade_comes_from_a_falling_price() {
    let mut trade = Trade::new(1, OrderSide::Buy, false);
    trade.increase_position(fill(1, OrderSide::Sell, 100, 2, 1)).unwrap();
    assert_eq!(
        trade.decrease_position(fill(2, OrderSide::Buy, 90, 2, 1), "cover".to_string()),
        Ok(true)
    );
    assert_eq!(trade.actual_profit_loss(), 200 - 180 - 2);
    assert_eq!(trade.actual_profit_loss_pct(), 90_000);
}

#[test]
fn trade_is_finalized_only_when_every_unit_is_closed() {
    let mut trade = Trade::new(1, OrderSide::Sell, false);
    trade.increase_position(fill(1, OrderSide::Buy, 100, 3, 0)).unwrap();
    assert_eq!(
        trade.decrease_position(fill(2, OrderSide::Sell, 110, 1, 0), "first".to_string()),
        Ok(false)
    );
    assert!(!trade.is_finalized());
    assert_eq!(trade.finalized_quantity(), 1);
    assert_eq!(trade.actual_profit_loss(), 0);
    assert_eq!(
        trade.decrease_position(fill(3, OrderSide::Sell, 120, 3, 0), "too much".to_string()),
        Err(TradeError::InvalidState)
    );
    assert_eq!(trade.finalized_quantity(), 1);
    assert_eq!(*trade.exit_reason(), Some("first".to_string()));
    assert_eq!(
        trade.decrease_position(fill(2, OrderSide::Sell, 120, 1, 0), "again".to_string()),
        Err(TradeError::InvalidState)
    );
    assert_eq!(
        trade.decrease_position(fill(4, OrderSide::Sell, 120, 2, 0), "rest".to_string()),
        Ok(true)
    );
    assert!(trade.is_finalized());
    assert_eq!(trade.finalized_quantity(), 3);
    assert_eq!(trade.actual_profit_loss(), 110 + 240 - 300);
}

#[test]
fn finalized_trade_takes_no_order() {
    let mut trade = Trade::new(1, OrderSide::Sell, false);
    trade.increase_position(fill(1, OrderSide::Buy, 100, 1, 0)).unwrap();
    trade.decrease_position(fill(2, OrderSide::Sell, 110, 1, 0), "done".to_string()).unwrap();
    assert_eq!(
        trade.increase_position(fill(3, OrderSide::Buy, 100, 1, 0)),
        Err(TradeError::InvalidState)
    );
    assert_eq!(
        trade.decrease_position(fill(4, OrderSide::Sell, 100, 0, 0), "late".to_string()),
        Err(TradeError::InvalidState)
    );
    assert_eq!(trade.total_units(), 1);
    assert_eq!(trade.finalized_quantity(), 1);
    assert_eq!(trade.actual_profit_loss(), 10);
    assert_eq!(*trade.exit_reason(), Some("done".to_string()));
    let before = trade.ticks();
    assert_eq!(
        trade.tick(&close_at(500)),
        TickOutcome { highest_profit: false, worst_loss: false }
    );
    assert_eq!(trade.ticks(), before);
    trade.init_trade(&close_at(500));
    assert_eq!(trade.first_candle(), None);
}

#[test]
fn exit_without_a_position_is_refused() {
    let mut trade = Trade::new(1, OrderSide::Sell, false);
    assert_eq!(
        trade.decrease_position(fill(2, OrderSide::Sell, 110, 0, 0), "none".to_string()),
        Err(TradeError::InvalidState)
    );
}

#[test]
fn profit_ratio_of_a_free_position_is_zero() {
    let mut trade = Trade::new(1, OrderSide::Sell, false);
    trade.increase_position(fill(1, OrderSide::Buy, 0, 2, 0)).unwrap();
    assert_eq!(trade.average_price(), 0);
    trade.decrease_position(fill(2, OrderSide::Sell, 10, 2, 0), "gift".to_string()).unwrap();
    assert_eq!(trade.actual_profit_loss(), 20);
    assert_eq!(trade.actual_profit_loss_pct(), 0);
}

#[test]
fn ticks_track_the_extremes_of_a_long_trade() {
    let mut trade = Trade::new(1, OrderSide::Sell, false);
    assert_eq!(
        trade.tick(&close_at(100)),
        TickOutcome { highest_profit: false, worst_loss: false }
    );
    assert_eq!(trade.ticks(), 0);
    trade.increase_position(fill(1, OrderSide::Buy, 100, 1, 0)).unwrap();

    let first = close_at(110);
    assert_eq!(trade.tick(&first), TickOutcome { highest_profit: true, worst_loss: false });
    assert_eq!(trade.ticks(), 1);
    assert_eq!(trade.first_candle(), Some(first));
    assert_eq!((trade.max(), trade.min()), (110, 110));
    assert_eq!(trade.change(), 100_000);
    assert_eq!((trade.max_change(), trade.min_change()), (100_000, 0));

    assert_eq!(
        trade.tick(&close_at(95)),
        TickOutcome { highest_profit: false, worst_loss: true }
    );
    assert_eq!(trade.ticks(), 2);
    assert_eq!((trade.max(), trade.min()), (110, 95));
    assert_eq!(trade.change(), -50_000);
    assert_eq!((trade.max_change(), trade.min_change()), (100_000, -50_000));

    assert_eq!(
        trade.tick(&close_at(105)),
        TickOutcome { highest_profit: false, worst_loss: false }
    );
    assert_eq!(trade.first_candle(), Some(first));
    assert_eq!(trade.change(), 50_000);
    assert_eq!((trade.max_change(), trade.min_change()), (100_000, -50_000));
    assert_eq!(trade.ticks(), 3);
}

#[test]
fn a_short_trade_gains_when_the_price_falls() {
    let mut trade = Trade::new(1, OrderSide::Buy, false);
    trade.increase_position(fill(1, OrderSide::Sell, 100, 1, 0)).unwrap();
    assert_eq!(
        trade.tick(&close_at(90)),
        TickOutcome { highest_profit: true, worst_loss: false }
    );
    assert_eq!(trade.change(), 100_000);
    assert_eq!(
        trade.tick(&close_at(120)),
        TickOutcome { highest_profit: false, worst_loss: true }
    );
    assert_eq!(trade.change(), -200_000);
}

#[test]
fn change_of_a_free_position_is_zero() {
    let mut trade = Trade::new(1, OrderSide::Sell, false);
    trade.increase_position(fill(1, OrderSide::Buy, 0, 1, 0)).unwrap();
    assert_eq!(
        trade.tick(&close_at(90)),
        TickOutcome { highest_profit: false, worst_loss: false }
    );
    assert_eq!(trade.change(), 0);
    assert_eq!(trade.ticks(), 1);
}

#[test]
fn init_trade_sets_the_extremes() {
    let mut trade = Trade::new(1, OrderSide::Sell, false);
    trade.increase_position(fill(1, OrderSide::Buy, 100, 1, 0)).unwrap();
    let start = close_at(100);
    trade.init_trade(&start);
    assert_eq!(trade.first_candle(), Some(start));
    assert_eq!((trade.max(), trade.min()), (100, 100));
    assert_eq!(trade.ticks(), 0);
    trade.tick(&close_at(90));
    assert_eq!((trade.max(), trade.min()), (100, 90));
    assert_eq!(trade.first_candle(), Some(start));
}

#[test]
fn an_order_that_passes_the_limits_is_refused() {
    let mut trade = Trade::new(1, OrderSide::Sell, false);
    assert_eq!(
        trade.increase_position(fill(1, OrderSide::Buy, u64::MAX, u64::MAX, 0)),
        Err(TradeError::LimitExceeded)
    );
    assert!(trade.position().is_empty());
    let large = fill(2, OrderSide::Buy, 1 << 40, 1 << 60, 0);
    assert_eq!(large.executed_value(), VALUE_LIMIT);
    assert_eq!(trade.increase_position(large), Ok(()));
    assert_eq!(trade.total_unspent(), VALUE_LIMIT);
    assert_eq!(
        trade.increase_position(fill(3, OrderSide::Buy, 1, 1, 0)),
        Err(TradeError::LimitExceeded)
    );
    assert_eq!(trade.increase_position(fill(3, OrderSide::Buy, 0, 1, 0)), Ok(()));
    assert_eq!(trade.total_units(), (1 << 60) + 1);
    assert_eq!(
        trade.decrease_position(fill(4, OrderSide::Sell, (1 << 40) + 1, 1 << 60, 0), "x".to_string()),
        Err(TradeError::LimitExceeded)
    );
    assert_eq!(trade.finalized_quantity(), 0);
    assert_eq!(*trade.exit_reason(), None);
    assert_eq!(
        trade.decrease_position(fill(4, OrderSide::Sell, 1 << 40, 1 << 60, 0), "x".to_string()),
        Ok(false)
    );
    assert_eq!(trade.exit_value(), VALUE_LIMIT);
}

#[test]
fn units_beyond_what_can_be_counted_are_refused() {
    let mut trade = Trade::new(1, OrderSide::Sell, false);
    trade.increase_position(fill(1, OrderSide::Buy, 0, u64::MAX, 0)).unwrap();
    assert_eq!(
        trade.increase_position(fill(2, OrderSide::Buy, 0, 1, 0)),
        Err(TradeError::LimitExceeded)
    );
    assert_eq!(trade.total_units(), u64::MAX);
}

#[test]
fn a_state_that_refuses_an_order_is_reported_before_a_limit() {
    let mut trade = Trade::new(1, OrderSide::Sell, false);
    trade.increase_position(fill(1, OrderSide::Buy, 1, 1, 0)).unwrap();
    assert_eq!(
        trade.increase_position(fill(1, OrderSide::Buy, u64::MAX, u64::MAX, 0)),
        Err(TradeError::InvalidState)
    );
    assert_eq!(
        trade.decrease_position(fill(2, OrderSide::Sell, u64::MAX, 2, 0), "x".to_string()),
        Err(TradeError::InvalidState)
    );
}
