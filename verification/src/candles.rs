//! Price bars and their aggregation into fixed-width buckets.

pub mod aggregator;
pub mod candle;
