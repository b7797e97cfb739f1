//! Orders, the positions they build, and the order book.

pub mod account_manager;
pub mod balance;
pub mod order;
pub mod order_request;
pub mod orderbook;
pub mod trade;
