//! Folding a stream of bars into fixed-width buckets.
//!
//! The bucket width is given in milliseconds and split into whole minutes
//! and a sub-minute remainder. A bucket is measured from the opening time
//! of its first bar: after a bar is added, the bucket spans
//! `close_time - open_time + 1` milliseconds, the length of the closed
//! interval from the opening of the first bar to the close of the last.
//!
//! * While the span holds fewer whole minutes than the width, or exactly
//!   as many but a remainder smaller than the sub-minute part of the
//!   width, the bucket is still open and the bar extends it.
//! * When the span holds exactly as many whole minutes as the width and
//!   the remainder has reached the sub-minute part, the bucket closes.
//! * When the span holds more whole minutes than the width, data is
//!   missing: the open bucket is dropped and the bar starts a new one.
//!   No bucket closes, and the full bar stays as it was.

use crate::candles::candle::{Candle, CandleView};
use vstd::prelude::*;

verus! {

/// Milliseconds in a minute.
pub const MINUTE_MS: u64 = 60_000;

/// What an aggregator did with a bar.
#[derive(Clone, Copy, Debug, PartialEq, Eq, Structural)]
pub enum FeedOutcome {
    /// No bucket was in progress: the bar opened one.
    Opened,
    /// The bar is older than the bucket in progress and was ignored.
    Rejected,
    /// The bar was merged into the bucket in progress, which stays open.
    Extended,
    /// The bar was merged into the bucket in progress, which closed.
    Closed,
    /// The bar came after a gap: it replaced the bucket in progress.
    Restarted,
}

/// Mathematical state of an aggregator.
pub struct AggregatorView {
    /// Whole minutes in the bucket width.
    pub minutes: nat,
    /// Milliseconds of the bucket width beyond the whole minutes.
    pub ms: nat,
    /// The bucket closed by the latest bar, if that bar closed one.
    pub full: Option<CandleView>,
    /// The bucket in progress.
    pub partial: Option<CandleView>,
}

impl AggregatorView {
    /// An aggregator for buckets of `time` milliseconds that has seen no bar.
    pub open spec fn empty(time: nat) -> AggregatorView {
        AggregatorView { minutes: time / 60_000, ms: time % 60_000, full: None, partial: None }
    }

    pub open spec fn wf(self) -> bool {
        &&& self.ms < 60_000
        &&& self.partial matches Some(p) ==> p.is_valid()
    }

    /// The bar is older than the bucket in progress.
    pub open spec fn rejects(self, candle: CandleView) -> bool {
        self.partial matches Some(p) && candle.open_time < p.open_time
    }

    /// The bar is merged into the bucket in progress, which stays open or
    /// closes.
    pub open spec fn merges(self, candle: CandleView) -> bool {
        self.extends(candle) || self.closes(candle)
    }

    /// The bar is merged into the bucket in progress, which stays open.
    pub open spec fn extends(self, candle: CandleView) -> bool {
        self.partial matches Some(p) && candle.open_time >= p.open_time && {
            let span = p.merge(candle).span_ms();
            span / 60_000 < self.minutes || (span / 60_000 == self.minutes && span % 60_000
                < self.ms)
        }
    }

    /// The bar is merged into the bucket in progress, which closes.
    pub open spec fn closes(self, candle: CandleView) -> bool {
        self.partial matches Some(p) && candle.open_time >= p.open_time && {
            let span = p.merge(candle).span_ms();
            span / 60_000 == self.minutes && span % 60_000 >= self.ms
        }
    }

    /// The bar comes after a gap wider than a bucket.
    pub open spec fn restarts(self, candle: CandleView) -> bool {
        self.partial matches Some(p) && candle.open_time >= p.open_time && p.merge(
            candle,
        ).span_ms() / 60_000 > self.minutes
    }

    /// The bar can be fed: it does not end before it starts, and where it
    /// is merged into the bucket in progress, their volumes together are
    /// within what a bar holds.
    pub open spec fn can_feed(self, candle: CandleView) -> bool {
        &&& candle.is_valid()
        &&& self.merges(candle) ==> self.partial.unwrap().volume + candle.volume <= u64::MAX
    }

    /// What the aggregator does with a bar.
    pub open spec fn outcome(self, candle: CandleView) -> FeedOutcome {
        if self.partial.is_none() {
            FeedOutcome::Opened
        } else if self.rejects(candle) {
            FeedOutcome::Rejected
        } else if self.extends(candle) {
            FeedOutcome::Extended
        } else if self.closes(candle) {
            FeedOutcome::Closed
        } else {
            FeedOutcome::Restarted
        }
    }

    /// State after one bar.
    pub open spec fn feed(self, candle: CandleView) -> AggregatorView {
        match self.partial {
            None => AggregatorView { full: None, partial: Some(candle), ..self },
            Some(p) => {
                if self.rejects(candle) {
                    self
                } else if self.extends(candle) {
                    AggregatorView { partial: Some(p.merge(candle)), ..self }
                } else if self.closes(candle) {
                    AggregatorView { full: Some(p.merge(candle)), partial: None, ..self }
                } else {
                    AggregatorView { partial: Some(candle), ..self }
                }
            },
        }
    }

    /// State after a sequence of bars, fed first to last.
    pub open spec fn feed_all(self, candles: Seq<CandleView>) -> AggregatorView
        decreases candles.len(),
    {
        if candles.len() == 0 {
            self
        } else {
            self.feed_all(candles.drop_last()).feed(candles.last())
        }
    }
}

/// The merge of a non-empty sequence of bars, first to last.
pub open spec fn merge_all(candles: Seq<CandleView>) -> CandleView
    recommends
        candles.len() > 0,
    decreases candles.len(),
{
    if candles.len() <= 1 {
        candles[0]
    } else {
        merge_all(candles.drop_last()).merge(candles.last())
    }
}

/// Every bar spans exactly one minute and starts one millisecond after
/// the bar before it ends.
pub open spec fn consecutive_minutes(candles: Seq<CandleView>) -> bool {
    &&& forall|i: int|
        0 <= i < candles.len() ==> (#[trigger] candles[i]).close_time == candles[i].open_time
            + 59_999
    &&& forall|i: int|
        0 < i < candles.len() ==> (#[trigger] candles[i]).open_time == candles[i - 1].close_time
            + 1
}

/// Of a bar fed while a bucket is in progress exactly one thing holds:
/// it is rejected, it extends the bucket, it closes the bucket, or it
/// starts a new bucket after a gap.
pub proof fn lemma_feed_cases(aggregator: AggregatorView, candle: CandleView)
    requires
        aggregator.partial.is_some(),
    ensures
        aggregator.rejects(candle) || aggregator.extends(candle) || aggregator.closes(candle)
            || aggregator.restarts(candle),
        !(aggregator.rejects(candle) && aggregator.merges(candle)),
        !(aggregator.rejects(candle) && aggregator.restarts(candle)),
        !(aggregator.extends(candle) && aggregator.closes(candle)),
        !(aggregator.merges(candle) && aggregator.restarts(candle)),
        aggregator.restarts(candle) ==> aggregator.feed(candle) == (AggregatorView {
            partial: Some(candle),
            ..aggregator
        }),
        aggregator.outcome(candle) == FeedOutcome::Rejected <==> aggregator.rejects(candle),
        aggregator.outcome(candle) == FeedOutcome::Extended <==> aggregator.extends(candle),
        aggregator.outcome(candle) == FeedOutcome::Closed <==> aggregator.closes(candle),
        aggregator.outcome(candle) == FeedOutcome::Restarted <==> aggregator.restarts(candle),
        aggregator.rejects(candle) ==> aggregator.feed(candle) == aggregator,
{
}

proof fn lemma_bucket_in_progress(minutes: nat, candles: Seq<CandleView>)
    requires
        1 <= candles.len() < minutes,
        consecutive_minutes(candles),
    ensures
        AggregatorView::empty(minutes * 60_000).feed_all(candles) == (AggregatorView {
            minutes,
            ms: 0,
            full: None,
            partial: Some(merge_all(candles)),
        }),
        merge_all(candles).open_time == candles[0].open_time,
        merge_all(candles).close_time == candles[0].open_time + candles.len() * 60_000 - 1,
    decreases candles.len(),
{
    let start = AggregatorView::empty(minutes * 60_000);
    assert(start.minutes == minutes && start.ms == 0);
    let init = candles.drop_last();
    if candles.len() == 1 {
        assert(init.len() == 0);
        assert(start.feed_all(init) == start);
        assert(start.feed_all(candles) == start.feed(candles.last()));
    } else {
        assert(consecutive_minutes(init)) by {
            assert forall|i: int| 0 <= i < init.len() implies (#[trigger] init[i]).close_time
                == init[i].open_time + 59_999 by {
                assert(init[i] == candles[i]);
            }
            assert forall|i: int| 0 < i < init.len() implies (#[trigger] init[i]).open_time
                == init[i - 1].close_time + 1 by {
                assert(init[i] == candles[i]);
                assert(init[i - 1] == candles[i - 1]);
            }
        }
        lemma_bucket_in_progress(minutes, init);
        let before = start.feed_all(init);
        let p = merge_all(init);
        let c = candles.last();
        assert(init[0] == candles[0]);
        assert(init.last() == candles[candles.len() - 2]);
        assert(c == candles[candles.len() - 1]);
        assert(c.open_time == candles[candles.len() - 2].close_time + 1);
        assert(p.close_time == candles[candles.len() - 2].close_time) by {
            lemma_merge_all_close(init);
        }
        let span = p.merge(c).span_ms();
        assert(span == candles.len() * 60_000);
        assert(span / 60_000 == candles.len());
        assert(before.extends(c));
        assert(!before.rejects(c));
    }
}

proof fn lemma_merge_all_close(candles: Seq<CandleView>)
    requires
        candles.len() >= 1,
    ensures
        merge_all(candles).close_time == candles.last().close_time,
        merge_all(candles).open_time == candles[0].open_time,
    decreases candles.len(),
{
    if candles.len() > 1 {
        lemma_merge_all_close(candles.drop_last());
    }
}

/// Feeding exactly `minutes` consecutive one-minute bars to an aggregator
/// for buckets of `minutes` minutes that has seen no bar closes one
/// bucket: the full bar is the merge of all the bars fed, and no bucket
/// is left in progress. The first bar always opens a bucket without
/// closing it, so the width is at least two minutes.
pub proof fn lemma_full_bucket(minutes: nat, candles: Seq<CandleView>)
    requires
        minutes >= 2,
        candles.len() == minutes,
        consecutive_minutes(candles),
    ensures
        AggregatorView::empty(minutes * 60_000).feed_all(candles) == (AggregatorView {
            minutes,
            ms: 0,
            full: Some(merge_all(candles)),
            partial: None,
        }),
{
    let start = AggregatorView::empty(minutes * 60_000);
    let init = candles.drop_last();
    assert(consecutive_minutes(init)) by {
        assert forall|i: int| 0 <= i < init.len() implies (#[trigger] init[i]).close_time
            == init[i].open_time + 59_999 by {
            assert(init[i] == candles[i]);
        }
        assert forall|i: int| 0 < i < init.len() implies (#[trigger] init[i]).open_time == init[i
            - 1].close_time + 1 by {
            assert(init[i] == candles[i]);
            assert(init[i - 1] == candles[i - 1]);
        }
    }
    lemma_bucket_in_progress(minutes, init);
    let before = start.feed_all(init);
    let p = merge_all(init);
    let c = candles.last();
    assert(init[0] == candles[0]);
    assert(init.last() == candles[candles.len() - 2]);
    assert(c.open_time == candles[candles.len() - 2].close_time + 1);
    lemma_merge_all_close(init);
    let span = p.merge(c).span_ms();
    assert(span == minutes * 60_000);
    assert(span / 60_000 == minutes);
    assert(span % 60_000 == 0);
    assert(before.closes(c));
    assert(!before.extends(c));
    assert(!before.rejects(c));
}

/// Folds a stream of bars into buckets of a fixed width.
pub struct Aggregator {
    ms: u64,
    minutes: u64,
    full: Option<Candle>,
    partial: Option<Candle>,
}

impl View for Aggregator {
    type V = AggregatorView;

    closed spec fn view(&self) -> AggregatorView {
        AggregatorView {
            minutes: self.minutes as nat,
            ms: self.ms as nat,
            full: match self.full {
                Some(c) => Some(c@),
                None => None,
            },
            partial: match self.partial {
                Some(c) => Some(c@),
                None => None,
            },
        }
    }
}

impl Aggregator {
    /// An aggregator for buckets of `time` milliseconds.
    pub fn new(time: u64) -> (aggregator: Aggregator)
        ensures
            aggregator@ == AggregatorView::empty(time as nat),
            aggregator@.wf(),
    {
        Aggregator { minutes: time / MINUTE_MS, ms: time % MINUTE_MS, full: None, partial: None }
    }

    /// Feeds one bar. The first bar, and the first after a bucket has
    /// closed, opens a bucket and clears the full bar. A bar that opens
    /// before the bucket in progress is ignored. Any other bar extends
    /// the bucket, closes it, or after a gap replaces it and leaves the
    /// full bar as it was, by the span that the bucket would have with
    /// the bar in it.
    pub fn aggregate(&mut self, candle: &Candle) -> (outcome: FeedOutcome)
        requires
            old(self)@.wf(),
            old(self)@.can_feed(candle@),
        ensures
            final(self)@ == old(self)@.feed(candle@),
            final(self)@.wf(),
            outcome == old(self)@.outcome(candle@),
    {
        let partial_candle: Candle = match self.partial {
            None => {
                self.partial = Some(*candle);
                self.full = None;
                return FeedOutcome::Opened;
            },
            Some(p) => p,
        };
        if candle.open_time < partial_candle.open_time {
            return FeedOutcome::Rejected;
        }
        let span: u128 = (candle.close_time - partial_candle.open_time) as u128 + 1;
        let elapsed: u128 = span / (MINUTE_MS as u128);
        let rest: u128 = span % (MINUTE_MS as u128);
        let minutes: u128 = self.minutes as u128;
        assert(span == partial_candle@.merge(candle@).span_ms());
        if elapsed < minutes || (elapsed == minutes && rest < self.ms as u128) {
            self.partial = Some(partial_candle.merge(candle));
            return FeedOutcome::Extended;
        }
        if elapsed == minutes {
            self.full = Some(partial_candle.merge(candle));
            self.partial = None;
            return FeedOutcome::Closed;
        }
        self.partial = Some(*candle);
        FeedOutcome::Restarted
    }

    /// Feeds one bar if it can be fed: if it does not end before it
    /// starts and, where it is merged into the bucket in progress, their
    /// volumes together do not pass what a bar holds. A bar that cannot
    /// be fed changes nothing.
    pub fn checked_aggregate(&mut self, candle: &Candle) -> (outcome: Option<FeedOutcome>)
        requires
            old(self)@.wf(),
        ensures
            final(self)@.wf(),
            match outcome {
                Some(outcome) => old(self)@.can_feed(candle@) && final(self)@ == old(self)@.feed(
                    candle@,
                ) && outcome == old(self)@.outcome(candle@),
                None => !old(self)@.can_feed(candle@) && final(self)@ == old(self)@,
            },
    {
        if candle.open_time > candle.close_time {
            return None;
        }
        match self.partial {
            None => {},
            Some(p) => {
                if candle.open_time >= p.open_time {
                    let span: u128 = (candle.close_time - p.open_time) as u128 + 1;
                    let elapsed: u128 = span / (MINUTE_MS as u128);
                    assert(span == p@.merge(candle@).span_ms());
                    if elapsed <= self.minutes as u128 && candle.volume > u64::MAX - p.volume {
                        return None;
                    }
                }
            },
        }
        Some(self.aggregate(candle))
    }

    /// Replaces the full bar.
    pub fn set_full(&mut self, full: &Candle)
        ensures
            final(self)@ == (AggregatorView { full: Some(full@), ..old(self)@ }),
    {
        self.full = Some(*full);
    }

    /// The bucket that the latest bar closed, if it closed one.
    pub fn get_full(&self) -> (full: Option<Candle>)
        ensures
            match full {
                Some(c) => self@.full == Some(c@),
                None => self@.full.is_none(),
            },
    {
        self.full
    }

    /// The bucket in progress.
    pub fn get_partial(&self) -> (partial: Option<Candle>)
        ensures
            match partial {
                Some(c) => self@.partial == Some(c@),
                None => self@.partial.is_none(),
            },
    {
        self.partial
    }
}

} // verus!
