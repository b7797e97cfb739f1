use std::cmp::Ordering;
use trading_core::candles::aggregator::{Aggregator, FeedOutcome, MINUTE_MS};
use trading_core::candles::candle::Candle;

fn minute(index: u64, open: u64, high: u64, low: u64, close: u64, volume: u64) -> Candle {
    Candle::new(index * 60_000, index * 60_000 + 59_999, open, high, low, close, volume)
}

#[test]
fn candle_new_keeps_every_field() {
    let c = Candle::new(1, 2, 3, 4, 5, 6, 7);
    assert_eq!(c.open_time, 1);
    assert_eq!(c.close_time, 2);
    assert_eq!(c.open, 3);
    assert_eq!(c.high, 4);
    assert_eq!(c.low, 5);
    assert_eq!(c.close, 6);
    assert_eq!(c.volume, 7);
}

#[test]
fn merge_takes_extremes_and_sums_volume() {
    let a = Candle::new(0, 59_999, 100, 120, 95, 110, 5);
    let b = Candle::new(60_000, 119_999, 110, 115, 90, 92, 7);
    let m = a.merge(&b);
    assert_eq!(m, Candle::new(0, 119_999, 100, 120, 90, 92, 12));
    let n = b.merge(&a);
    assert_eq!(n, Candle::new(60_000, 59_999, 110, 120, 90, 110, 12));
}

#[test]
fn merge_is_associative_on_three_consecutive_candles() {
    let a = minute(0, 100, 120, 95, 110, 5);
    let b = minute(1, 110, 115, 90, 92, 7);
    let c = minute(2, 92, 130, 91, 125, 11);
    let left = a.merge(&b).merge(&c);
    let right = a.merge(&b.merge(&c));
    assert_eq!(left, right);
    assert_eq!(left, Candle::new(0, 179_999, 100, 130, 90, 125, 23));
}

#[test]
fn merge_of_the_largest_volumes_that_fit() {
    let a = Candle::new(0, 1, 1, 1, 1, 1, u64::MAX - 1);
    let b = Candle::new(2, 3, 1, 1, 1, 1, 1);
    assert_eq!(a.merge(&b).volume, u64::MAX);
}

#[test]
fn candle_change_in_parts_per_million() {
    assert_eq!(Candle::new(0, 1, 100, 110, 100, 110, 1).get_change(), 100_000);
    assert_eq!(Candle::new(0, 1, 100, 100, 75, 75, 1).get_change(), -250_000);
    assert_eq!(Candle::new(0, 1, 0, 5, 0, 5, 1).get_change(), 0);
}

#[test]
fn candle_colours() {
    let up = Candle::new(0, 1, 10, 12, 9, 11, 1);
    let down = Candle::new(0, 1, 10, 12, 9, 9, 1);
    let flat = Candle::new(0, 1, 10, 12, 9, 10, 1);
    assert!(up.is_close_positive() && up.is_green() && !up.is_red());
    assert!(!down.is_close_positive() && !down.is_green() && down.is_red());
    assert!(!flat.is_close_positive() && flat.is_green() && !flat.is_red());
}

#[test]
fn tick_is_one_instant_and_one_price() {
    assert!(Candle::new(5, 5, 10, 10, 10, 10, 3).is_tick());
    assert!(!Candle::new(5, 6, 10, 10, 10, 10, 3).is_tick());
    assert!(!Candle::new(5, 5, 10, 11, 10, 10, 3).is_tick());
    assert!(!Candle::new(5, 5, 10, 10, 9, 10, 3).is_tick());
    assert!(!Candle::new(5, 5, 9, 10, 10, 10, 3).is_tick());
}

#[test]
fn candles_are_ordered_by_close_then_open() {
    let a = Candle::new(0, 10, 1, 1, 1, 1, 1);
    let b = Candle::new(5, 10, 2, 2, 2, 2, 2);
    let c = Candle::new(0, 11, 1, 1, 1, 1, 1);
    let d = Candle::new(0, 10, 9, 9, 9, 9, 9);
    assert_eq!(a.partial_cmp(&b), Some(Ordering::Less));
    assert_eq!(b.partial_cmp(&a), Some(Ordering::Greater));
    assert_eq!(a.partial_cmp(&c), Some(Ordering::Less));
    assert_eq!(c.partial_cmp(&b), Some(Ordering::Greater));
    assert_eq!(a.partial_cmp(&a), Some(Ordering::Equal));
    assert_eq!(a.partial_cmp(&d), Some(Ordering::Equal));
    assert!(a < b);
    assert!(c > b);
    assert!(a != d);
}

#[test]
fn aggregator_first_candle_opens_a_bucket() {
    let mut aggregator = Aggregator::new(3 * MINUTE_MS);
    assert_eq!(aggregator.get_full(), None);
    assert_eq!(aggregator.get_partial(), None);
    let first = minute(0, 100, 120, 95, 110, 5);
    aggregator.aggregate(&first);
    assert_eq!(aggregator.get_partial(), Some(first));
    assert_eq!(aggregator.get_full(), None);
}

#[test]
fn aggregator_closes_a_bucket_of_exactly_n_minutes() {
    let mut aggregator = Aggregator::new(3 * MINUTE_MS);
    let a = minute(0, 100, 120, 95, 110, 5);
    let b = minute(1, 110, 115, 90, 92, 7);
    let c = minute(2, 92, 130, 91, 125, 11);
    aggregator.aggregate(&a);
    aggregator.aggregate(&b);
    assert_eq!(aggregator.get_partial(), Some(a.merge(&b)));
    assert_eq!(aggregator.get_full(), None);
    aggregator.aggregate(&c);
    assert_eq!(aggregator.get_full(), Some(a.merge(&b).merge(&c)));
    assert_eq!(
        aggregator.get_full(),
        Some(Candle::new(0, 179_999, 100, 130, 90, 125, 23))
    );
    assert_eq!(aggregator.get_partial(), None);
}

#[test]
fn aggregator_starts_again_after_a_full_bucket() {
    let mut aggregator = Aggregator::new(2 * MINUTE_MS);
    aggregator.aggregate(&minute(0, 1, 2, 1, 2, 1));
    aggregator.aggregate(&minute(1, 2, 3, 2, 3, 1));
    assert!(aggregator.get_full().is_some());
    let next = minute(2, 3, 4, 3, 4, 1);
    aggregator.aggregate(&next);
    assert_eq!(aggregator.get_full(), None);
    assert_eq!(aggregator.get_partial(), Some(next));
    aggregator.aggregate(&minute(3, 4, 5, 4, 5, 1));
    assert_eq!(
        aggregator.get_full(),
        Some(Candle::new(120_000, 239_999, 3, 5, 3, 5, 2))
    );
}

#[test]
fn aggregator_ignores_a_candle_older_than_the_bucket() {
    let mut aggregator = Aggregator::new(5 * MINUTE_MS);
    let first = minute(3, 100, 120, 95, 110, 5);
    aggregator.aggregate(&first);
    aggregator.aggregate(&minute(2, 1, 1, 1, 1, 1));
    assert_eq!(aggregator.get_partial(), Some(first));
    assert_eq!(aggregator.get_full(), None);
    let same_open = Candle::new(180_000, 180_500, 7, 7, 7, 7, 2);
    aggregator.aggregate(&same_open);
    assert_eq!(aggregator.get_partial(), Some(first.merge(&same_open)));
}

#[test]
fn aggregator_drops_the_bucket_after_a_gap() {
    let mut aggregator = Aggregator::new(2 * MINUTE_MS);
    aggregator.aggregate(&minute(0, 1, 2, 1, 2, 1));
    let late = minute(5, 9, 9, 9, 9, 9);
    aggregator.aggregate(&late);
    assert_eq!(aggregator.get_full(), None);
    assert_eq!(aggregator.get_partial(), Some(late));
}

#[test]
fn aggregator_boundary_is_exact_to_the_millisecond() {
    let width = 2 * MINUTE_MS + 500;
    let first = Candle::new(0, 59_999, 10, 10, 10, 10, 1);

    let mut short = Aggregator::new(width);
    short.aggregate(&first);
    let just_short = Candle::new(60_000, 120_498, 10, 11, 10, 11, 1);
    short.aggregate(&just_short);
    assert_eq!(short.get_full(), None);
    assert_eq!(short.get_partial(), Some(first.merge(&just_short)));

    let mut exact = Aggregator::new(width);
    exact.aggregate(&first);
    let reaches = Candle::new(60_000, 120_499, 10, 11, 10, 11, 1);
    exact.aggregate(&reaches);
    assert_eq!(exact.get_full(), Some(first.merge(&reaches)));
    assert_eq!(exact.get_partial(), None);

    let mut last = Aggregator::new(width);
    last.aggregate(&first);
    let end_of_minute = Candle::new(60_000, 179_998, 10, 11, 10, 11, 1);
    last.aggregate(&end_of_minute);
    assert_eq!(last.get_full(), Some(first.merge(&end_of_minute)));

    let mut over = Aggregator::new(width);
    over.aggregate(&first);
    let beyond = Candle::new(60_000, 179_999, 10, 11, 10, 11, 1);
    over.aggregate(&beyond);
    assert_eq!(over.get_full(), None);
    assert_eq!(over.get_partial(), Some(beyond));
}

#[test]
fn aggregator_of_one_minute_never_closes_on_minute_candles() {
    let mut aggregator = Aggregator::new(MINUTE_MS);
    let a = minute(0, 1, 2, 1, 2, 1);
    let b = minute(1, 2, 3, 2, 3, 1);
    aggregator.aggregate(&a);
    assert_eq!(aggregator.get_partial(), Some(a));
    assert_eq!(aggregator.get_full(), None);
    aggregator.aggregate(&b);
    assert_eq!(aggregator.get_partial(), Some(b));
    assert_eq!(aggregator.get_full(), None);
}

#[test]
fn aggregator_merges_ticks_into_a_minute() {
    let mut aggregator = Aggregator::new(MINUTE_MS);
    let t0 = Candle::new(1_000, 1_000, 10, 10, 10, 10, 1);
    let t1 = Candle::new(30_000, 30_000, 12, 12, 12, 12, 2);
    let t2 = Candle::new(60_999, 60_999, 9, 9, 9, 9, 3);
    aggregator.aggregate(&t0);
    aggregator.aggregate(&t1);
    assert_eq!(aggregator.get_partial(), Some(Candle::new(1_000, 30_000, 10, 12, 10, 12, 3)));
    aggregator.aggregate(&t2);
    assert_eq!(aggregator.get_full(), Some(Candle::new(1_000, 60_999, 10, 12, 9, 9, 6)));
    assert_eq!(aggregator.get_partial(), None);
}

#[test]
fn aggregator_set_full_replaces_the_full_bar() {
    let mut aggregator = Aggregator::new(MINUTE_MS);
    let bar = minute(0, 1, 2, 1, 2, 1);
    aggregator.set_full(&bar);
    assert_eq!(aggregator.get_full(), Some(bar));
    assert_eq!(aggregator.get_partial(), None);
}

#[test]
fn aggregator_says_what_it_did_with_each_bar() {
    let mut aggregator = Aggregator::new(2 * MINUTE_MS);
    assert_eq!(aggregator.aggregate(&minute(3, 1, 2, 1, 2, 1)), FeedOutcome::Opened);
    assert_eq!(aggregator.aggregate(&minute(2, 1, 2, 1, 2, 1)), FeedOutcome::Rejected);
    assert_eq!(
        aggregator.aggregate(&Candle::new(180_000, 200_000, 1, 2, 1, 2, 1)),
        FeedOutcome::Extended
    );
    assert_eq!(aggregator.aggregate(&minute(4, 2, 3, 2, 3, 1)), FeedOutcome::Closed);
    assert_eq!(aggregator.aggregate(&minute(5, 3, 4, 3, 4, 1)), FeedOutcome::Opened);
    assert_eq!(aggregator.aggregate(&minute(9, 3, 4, 3, 4, 1)), FeedOutcome::Restarted);
    assert_eq!(aggregator.get_partial(), Some(minute(9, 3, 4, 3, 4, 1)));
}

#[test]
fn checked_merge_refuses_volumes_that_do_not_fit() {
    let a = Candle::new(0, 1, 1, 1, 1, 1, u64::MAX);
    let b = Candle::new(2, 3, 1, 1, 1, 1, 1);
    let c = Candle::new(2, 3, 1, 2, 1, 2, 0);
    assert_eq!(a.checked_merge(&b), None);
    assert_eq!(a.checked_merge(&c), Some(Candle::new(0, 3, 1, 2, 1, 2, u64::MAX)));
    assert_eq!(b.checked_merge(&c), Some(b.merge(&c)));
}

#[test]
fn checked_aggregate_feeds_what_can_be_fed() {
    let mut aggregator = Aggregator::new(2 * MINUTE_MS);
    let backwards = Candle::new(10, 9, 1, 1, 1, 1, 1);
    assert_eq!(aggregator.checked_aggregate(&backwards), None);
    assert_eq!(aggregator.get_partial(), None);
    let full_volume = Candle::new(60_000, 119_999, 1, 1, 1, 1, u64::MAX);
    assert_eq!(aggregator.checked_aggregate(&full_volume), Some(FeedOutcome::Opened));
    let more = minute(2, 1, 1, 1, 1, 1);
    assert_eq!(aggregator.checked_aggregate(&more), None);
    assert_eq!(aggregator.get_partial(), Some(full_volume));
    assert_eq!(aggregator.get_full(), None);
    assert_eq!(
        aggregator.checked_aggregate(&Candle::new(60_001, 60_005, 1, 1, 1, 1, 0)),
        Some(FeedOutcome::Extended)
    );
    let older = Candle::new(0, 0, 1, 1, 1, 1, 1);
    assert_eq!(aggregator.checked_aggregate(&older), Some(FeedOutcome::Rejected));
    let late = minute(7, 1, 1, 1, 1, 9);
    assert_eq!(aggregator.checked_aggregate(&late), Some(FeedOutcome::Restarted));
    assert_eq!(aggregator.get_partial(), Some(late));
    assert_eq!(
        aggregator.checked_aggregate(&minute(8, 1, 1, 1, 1, 1)),
        Some(FeedOutcome::Closed)
    );
}

#[test]
fn a_gap_leaves_the_full_bar_as_it_was() {
    let mut aggregator = Aggregator::new(2 * MINUTE_MS);
    aggregator.aggregate(&minute(0, 1, 2, 1, 2, 1));
    let kept = minute(50, 7, 7, 7, 7, 7);
    aggregator.set_full(&kept);
    let late = minute(5, 9, 9, 9, 9, 9);
    assert_eq!(aggregator.aggregate(&late), FeedOutcome::Restarted);
    assert_eq!(aggregator.get_full(), Some(kept));
    assert_eq!(aggregator.get_partial(), Some(late));
    assert_eq!(aggregator.aggregate(&minute(4, 1, 1, 1, 1, 1)), FeedOutcome::Rejected);
    assert_eq!(aggregator.get_full(), Some(kept));
}

#[test]
fn both_groupings_merge_to_one_bar_up_to_the_largest_volume() {
    let a = Candle::new(0, 1, 5, 9, 4, 6, u64::MAX - 3);
    let b = Candle::new(2, 3, 6, 7, 2, 3, 2);
    let c = Candle::new(4, 5, 3, 11, 3, 8, 1);
    let left = a.merge(&b).merge(&c);
    let right = a.merge(&b.merge(&c));
    assert_eq!(left, right);
    assert_eq!(left, Candle::new(0, 5, 5, 11, 2, 8, u64::MAX));
    assert_eq!(a.checked_merge(&b).unwrap().checked_merge(&Candle::new(4, 5, 3, 11, 3, 8, 2)), None);
}
