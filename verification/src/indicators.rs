//! What indicators and strategies say of a market.

pub mod signal;
