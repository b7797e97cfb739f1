use std::collections::HashMap;
use trading_core::account::account_manager::AccountManager;
use trading_core::account::balance::Balance;
use trading_core::account::order::{Order, OrderSide};
use trading_core::account::order_request::OrderRequest;
use trading_core::account::trade::TradeSide;
use trading_core::candles::candle::Candle;
use trading_core::client_account::ClientAccount;
use trading_core::indicators::signal::Signal;
use trading_core::simulation::signal_repository::{SignalRepository, DEFAULT_REPO_HEADERS};

#[derive(Debug, PartialEq)]
struct Paper;

impl ClientAccount for Paper {
    fn execute_order(order_details: OrderRequest) -> Order {
        Order::new_from_order_request(1, order_details)
    }

    fn update_balances(_force: bool) -> HashMap<String, Balance> {
        let mut balances = HashMap::new();
        balances.insert("USDT".to_string(), Balance::new("USDT".to_string()));
        balances
    }

    fn update_order_status(_order: Order) {}

    fn cancel(_order: Order) {}

    fn is_simulated() -> bool {
        true
    }
}

struct Live;

impl ClientAccount for Live {
    fn execute_order(order_details: OrderRequest) -> Order {
        Order::new_from_order_request(2, order_details)
    }

    fn update_balances(_force: bool) -> HashMap<String, Balance> {
        HashMap::new()
    }

    fn update_order_status(_order: Order) {}

    fn cancel(_order: Order) {}
}

#[test]
fn new_balance_is_empty_and_open() {
    let b = Balance::new("USDT".to_string());
    assert_eq!(b.symbol(), "USDT");
    assert_eq!(b.free, 0);
    assert_eq!(b.locked, 0);
    assert_eq!(b.shorted, 0);
    assert!(!b.trading_locked);
    assert!(b.shorted_asset_symbols().is_empty());
    assert!(!b.is_shorted(&"BTC".to_string()));
    assert_eq!(b.balance_update_counts(), 0);
    assert_eq!(b.total(), 0);
    assert_eq!(b.get_margin_reserve(&"BTC".to_string()), None);
}

#[test]
fn balance_total_is_free_plus_locked() {
    let mut b = Balance::new("USDT".to_string());
    b.free(70);
    b.locked(30);
    b.shorted(5);
    assert_eq!((b.free, b.locked, b.shorted), (70, 30, 5));
    assert_eq!(b.total(), 100);
    b.free(u64::MAX);
    b.locked(u64::MAX);
    assert_eq!(b.total(), 2 * (u64::MAX as u128));
}

#[test]
fn margin_reserve_is_kept_by_asset() {
    let mut b = Balance::new("USDT".to_string());
    let btc = "BTC".to_string();
    let eth = "ETH".to_string();
    b.margin_reserve(btc.clone(), 150);
    b.margin_reserve(eth.clone(), 20);
    assert_eq!(b.get_margin_reserve(&btc), Some(150));
    assert_eq!(b.get_margin_reserve(&eth), Some(20));
    b.margin_reserve(btc.clone(), 175);
    assert_eq!(b.get_margin_reserve(&btc), Some(175));
    assert_eq!(b.get_margin_reserve(&eth), Some(20));
    b.margin_reserve(btc.clone(), 0);
    assert_eq!(b.get_margin_reserve(&btc), None);
    assert_eq!(b.get_margin_reserve(&eth), Some(20));
    b.margin_reserve(btc.clone(), 0);
    assert_eq!(b.get_margin_reserve(&btc), None);
    b.margin_reserve(eth.clone(), 0);
    b.margin_reserve(btc.clone(), 9);
    assert_eq!(b.get_margin_reserve(&btc), Some(9));
    assert_eq!(b.get_margin_reserve(&eth), None);
    assert_eq!(b.free, 0);
}

#[test]
fn account_connector_defaults() {
    assert!(!Live::is_simulated());
    assert_eq!(Live::margin_reserve_percentage(), 150);
    assert!(Paper::is_simulated());
    assert_eq!(Paper::margin_reserve_percentage(), 150);
    let request = OrderRequest::new(
        "BTC".to_string(),
        "USDT".to_string(),
        OrderSide::Buy,
        TradeSide::LONG,
        5,
        None,
    );
    assert_eq!(Paper::execute_order(request.clone()).internal_id(), 1);
    assert_eq!(Live::execute_order(request).internal_id(), 2);
    assert_eq!(Paper::update_balances(true).len(), 1);
}

#[test]
fn new_account_manager_holds_nothing() {
    let manager = AccountManager::new(Paper, 600_000, 900_000, 1_500_000);
    assert_eq!(manager.trade_counter, 0);
    assert!(manager.balance_update_counts.is_empty());
    assert_eq!(manager.balance_expiration_time, 600_000);
    assert_eq!(manager.frequent_balance_update_interval, 900_000);
    assert_eq!(manager.last_balance_sync, 0);
    assert!(manager.balances.is_empty());
    assert_eq!(manager.account, Paper);
    assert_eq!(manager.account_hash, 0);
    assert_eq!(manager.margin_reserve_factor, 1_500_000);
    assert_eq!(manager.margin_reserve_factor_pct, 150_000_000);
    assert!(manager.latest_prices.is_empty());
    assert_eq!(manager.signal_repository.headers().len(), 8);
    let largest = AccountManager::new(Paper, 0, 0, u64::MAX);
    assert_eq!(largest.margin_reserve_factor_pct, u64::MAX as u128 * 100);
}

#[test]
fn new_repository_has_the_default_headers() {
    let repository = SignalRepository::new();
    let headers: Vec<&str> = repository.headers().iter().map(|h| h.as_str()).collect();
    assert_eq!(headers, DEFAULT_REPO_HEADERS.to_vec());
    assert_eq!(
        headers,
        vec!["OPEN_TIME", "CLOSE_TIME", "OPEN", "HIGH", "LOW", "CLOSE", "VOLUME", "SIGNAL"]
    );
    assert_eq!(repository.repository_dir(), "");
    assert_eq!(repository.get("BTCUSDT", &Candle::new(0, 1, 1, 1, 1, 1, 1)), None);
}

#[test]
fn repository_keeps_one_signal_for_a_symbol_and_candle() {
    let mut repository = SignalRepository::new();
    let first = Candle::new(0, 59_999, 1, 2, 1, 2, 5);
    let second = Candle::new(60_000, 119_999, 2, 3, 2, 3, 5);
    let other_prices = Candle::new(0, 59_999, 1, 2, 1, 1, 5);
    repository.add("BTCUSDT", Signal::BUY, first);
    repository.add("BTCUSDT", Signal::SELL, second);
    repository.add("ETHUSDT", Signal::NEUTRAL, first);
    assert_eq!(repository.get("BTCUSDT", &first), Some(Signal::BUY));
    assert_eq!(repository.get("BTCUSDT", &second), Some(Signal::SELL));
    assert_eq!(repository.get("ETHUSDT", &first), Some(Signal::NEUTRAL));
    assert_eq!(repository.get("ETHUSDT", &second), None);
    assert_eq!(repository.get("BTCUSDT", &other_prices), None);
    repository.add("BTCUSDT", Signal::OVERVALUED, first);
    assert_eq!(repository.get("BTCUSDT", &first), Some(Signal::OVERVALUED));
    assert_eq!(repository.get("BTCUSDT", &second), Some(Signal::SELL));
    assert_eq!(repository.get("ETHUSDT", &first), Some(Signal::NEUTRAL));
}

#[test]
fn trading_can_be_locked_and_unlocked() {
    let mut b = Balance::new("USDT".to_string());
    b.lock_trading();
    assert!(b.trading_locked);
    b.lock_trading();
    assert!(b.trading_locked);
    b.unlock_trading();
    assert!(!b.trading_locked);
    b.unlock_trading();
    assert!(!b.trading_locked);
}

#[test]
fn shorted_assets_are_a_set() {
    let mut b = Balance::new("USDT".to_string());
    let btc = "BTC".to_string();
    let eth = "ETH".to_string();
    assert!(b.add_shorted_asset_symbol(btc.clone()));
    assert!(!b.add_shorted_asset_symbol(btc.clone()));
    assert!(b.add_shorted_asset_symbol(eth.clone()));
    assert_eq!(*b.shorted_asset_symbols(), vec![btc.clone(), eth.clone()]);
    assert!(b.is_shorted(&btc));
    assert!(b.is_shorted(&eth));
    assert!(!b.is_shorted(&"XRP".to_string()));
    assert!(b.remove_shorted_asset_symbol(&btc));
    assert!(!b.remove_shorted_asset_symbol(&btc));
    assert!(!b.is_shorted(&btc));
    assert!(b.is_shorted(&eth));
    assert_eq!(*b.shorted_asset_symbols(), vec![eth.clone()]);
    assert_eq!(b.free, 0);
    assert_eq!(b.get_margin_reserve(&eth), None);
}
