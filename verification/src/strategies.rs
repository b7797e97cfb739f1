//! Those who read the market and watch trades. Their own logic is theirs:
//! the crate calls them and promises nothing of what they answer.

pub mod indicator;
pub mod indicator_group;
pub mod strategy;
pub mod strategy_monitor;
