//! OHLCV bars over closed time intervals.

use crate::units::{change_ratio, change_ratio_spec};
use std::cmp::Ordering;
use vstd::prelude::*;
use vstd::std_specs::cmp::PartialOrdSpecImpl;

verus! {

/// Mathematical value of a bar: unbounded times, prices and volume.
pub struct CandleView {
    pub open_time: nat,
    pub close_time: nat,
    pub open: nat,
    pub high: nat,
    pub low: nat,
    pub close: nat,
    pub volume: nat,
}

impl CandleView {
    /// The interval is closed and not empty.
    pub open spec fn is_valid(self) -> bool {
        self.open_time <= self.close_time
    }

    /// Number of milliseconds in the closed interval of the bar.
    pub open spec fn span_ms(self) -> nat {
        if self.open_time <= self.close_time {
            (self.close_time - self.open_time + 1) as nat
        } else {
            0
        }
    }

    /// The bar that covers `self` followed by `other`.
    pub open spec fn merge(self, other: CandleView) -> CandleView {
        CandleView {
            open_time: self.open_time,
            close_time: other.close_time,
            open: self.open,
            high: if self.high >= other.high {
                self.high
            } else {
                other.high
            },
            low: if self.low <= other.low {
                self.low
            } else {
                other.low
            },
            close: other.close,
            volume: self.volume + other.volume,
        }
    }

    /// A single trade: one instant, one price.
    pub open spec fn is_tick(self) -> bool {
        &&& self.open_time == self.close_time
        &&& self.open == self.close
        &&& self.close == self.high
        &&& self.high == self.low
    }

    /// `other` starts strictly after `self` ends.
    pub open spec fn precedes(self, other: CandleView) -> bool {
        self.close_time < other.open_time
    }
}

/// Merging is associative: for any three bars, merging the first two and
/// then the third gives the same bar as merging the first with the merge
/// of the last two. In particular this holds for three consecutive,
/// non-overlapping bars.
pub proof fn lemma_merge_associative(a: CandleView, b: CandleView, c: CandleView)
    ensures
        a.merge(b).merge(c) == a.merge(b.merge(c)),
{
}

/// Merging two valid bars of which the first ends before the second
/// starts gives a valid bar that spans both.
pub proof fn lemma_merge_valid(a: CandleView, b: CandleView)
    requires
        a.is_valid(),
        b.is_valid(),
        a.precedes(b),
    ensures
        a.merge(b).is_valid(),
        a.merge(b).open_time == a.open_time,
        a.merge(b).close_time == b.close_time,
        a.merge(b).span_ms() >= a.span_ms() + b.span_ms(),
{
}

/// Merging bars is associative wherever it can be done. Three bars can
/// be merged in both groupings exactly when their three volumes together
/// are within what a bar holds, and both groupings then give the same
/// bar, field by field: the bar whose value is the merge of the three
/// values.
pub proof fn lemma_merge_associative_bars(a: Candle, b: Candle, c: Candle)
    ensures
        a.volume + b.volume + c.volume <= u64::MAX <==> a.can_merge(b) && a.merged(b).can_merge(c),
        a.volume + b.volume + c.volume <= u64::MAX <==> b.can_merge(c) && a.can_merge(b.merged(c)),
        a.volume + b.volume + c.volume <= u64::MAX ==> a.merged(b).merged(c) == a.merged(
            b.merged(c),
        ) && a.merged(b).merged(c)@ == a@.merge(b@).merge(c@),
{
}

/// An OHLCV bar. Times are milliseconds, prices are price ticks and the
/// volume is in lots.
#[derive(Clone, Copy, Debug, PartialEq, Eq, Structural)]
pub struct Candle {
    pub open_time: u64,
    pub close_time: u64,
    pub open: u64,
    pub high: u64,
    pub low: u64,
    pub close: u64,
    pub volume: u64,
}

impl View for Candle {
    type V = CandleView;

    open spec fn view(&self) -> CandleView {
        CandleView {
            open_time: self.open_time as nat,
            close_time: self.close_time as nat,
            open: self.open as nat,
            high: self.high as nat,
            low: self.low as nat,
            close: self.close as nat,
            volume: self.volume as nat,
        }
    }
}

impl Candle {
    pub fn new(
        open_time: u64,
        close_time: u64,
        open: u64,
        high: u64,
        low: u64,
        close: u64,
        volume: u64,
    ) -> (candle: Candle)
        ensures
            candle == (Candle { open_time, close_time, open, high, low, close, volume }),
    {
        Candle { open_time, close_time, open, high, low, close, volume }
    }

    /// Relative move from open to close in parts per million, zero for a
    /// bar that opened at price zero.
    pub fn get_change(&self) -> (change: i128)
        ensures
            change == change_ratio_spec(self@.open, self@.close),
    {
        change_ratio(self.open, self.close)
    }

    /// The volumes of the two bars together are within what a bar holds.
    pub open spec fn can_merge(self, other: Candle) -> bool {
        self.volume + other.volume <= u64::MAX
    }

    /// The bar that `merge` gives for `self` followed by `other`.
    pub open spec fn merged(self, other: Candle) -> Candle {
        Candle {
            open_time: self.open_time,
            close_time: other.close_time,
            open: self.open,
            high: if self.high >= other.high {
                self.high
            } else {
                other.high
            },
            low: if self.low <= other.low {
                self.low
            } else {
                other.low
            },
            close: other.close,
            volume: (self.volume + other.volume) as u64,
        }
    }

    /// The bar that covers `self` followed by `other`.
    pub fn merge(&self, other: &Candle) -> (merged: Candle)
        requires
            self.can_merge(*other),
        ensures
            merged == self.merged(*other),
            merged@ == self@.merge(other@),
    {
        let high: u64 = if self.high >= other.high {
            self.high
        } else {
            other.high
        };
        let low: u64 = if self.low <= other.low {
            self.low
        } else {
            other.low
        };
        Candle::new(
            self.open_time,
            other.close_time,
            self.open,
            high,
            low,
            other.close,
            self.volume + other.volume,
        )
    }

    /// The bar that covers `self` followed by `other`, unless their
    /// volumes together pass what a bar holds.
    pub fn checked_merge(&self, other: &Candle) -> (merged: Option<Candle>)
        ensures
            match merged {
                Some(merged) => self.volume + other.volume <= u64::MAX && merged@ == self@.merge(
                    other@,
                ),
                None => self.volume + other.volume > u64::MAX,
            },
    {
        if other.volume > u64::MAX - self.volume {
            None
        } else {
            Some(self.merge(other))
        }
    }

    pub fn is_close_positive(&self) -> (positive: bool)
        ensures
            positive == (self.close > self.open),
    {
        self.close > self.open
    }

    pub fn is_green(&self) -> (green: bool)
        ensures
            green == (self.open <= self.close),
    {
        self.open <= self.close
    }

    pub fn is_red(&self) -> (red: bool)
        ensures
            red == (self.open > self.close),
    {
        self.open > self.close
    }

    pub fn is_tick(&self) -> (tick: bool)
        ensures
            tick == self@.is_tick(),
    {
        self.open_time == self.close_time && self.open == self.close && self.close == self.high
            && self.high == self.low
    }
}

/// Bars are ordered by closing time, then by opening time. Two bars over
/// the same interval compare as equal whatever their prices.
impl PartialOrd for Candle {
    fn partial_cmp(&self, other: &Self) -> (r: Option<Ordering>) {
        if self.close_time == other.close_time {
            if self.open_time == other.open_time {
                return Some(Ordering::Equal);
            }
            if self.open_time < other.open_time {
                return Some(Ordering::Less);
            }
            return Some(Ordering::Greater);
        }
        if self.close_time < other.close_time {
            return Some(Ordering::Less);
        }
        Some(Ordering::Greater)
    }
}

impl PartialOrdSpecImpl for Candle {
    open spec fn obeys_partial_cmp_spec() -> bool {
        true
    }

    open spec fn partial_cmp_spec(&self, other: &Self) -> Option<Ordering> {
        if self.close_time == other.close_time {
            if self.open_time == other.open_time {
                Some(Ordering::Equal)
            } else if self.open_time < other.open_time {
                Some(Ordering::Less)
            } else {
                Some(Ordering::Greater)
            }
        } else if self.close_time < other.close_time {
            Some(Ordering::Less)
        } else {
            Some(Ordering::Greater)
        }
    }
}

} // verus!
