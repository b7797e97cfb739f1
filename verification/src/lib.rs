//! Accounting and market-state core of an automated trading engine:
//! orders and their fills, the trades they build, a depth-bounded order
//! book, and the aggregation of candles into bars of a fixed width.
//!
//! Every price, quantity and notional amount is a fixed-point integer: a
//! price counts price ticks, a quantity counts lots, and a notional
//! amount is their exact product. Ratios are signed parts per million.
//!
//! Strategies, indicators, monitors, the fee schedule and the account
//! connector are traits: the crate calls them and states what it does
//! with whatever they answer.

pub mod account;
pub mod candles;
pub mod client_account;
pub mod indicators;
pub mod keyed;
pub mod simulation;
pub mod strategies;
pub mod trading_fees;
pub mod units;
