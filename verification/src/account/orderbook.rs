//! The order book: a price ladder of bounded depth for each side, and
//! what it would cost to trade a quantity against it.
//!
//! Bids are kept best first, highest price first; asks are kept best
//! first, lowest price first. A price occurs once on a side and every
//! level holds a positive quantity: setting a price to quantity zero
//! withdraws its level. A side never holds more levels than the depth of
//! the book: the levels beyond it, the worst of the side, are dropped.

use crate::client_account::ClientAccount;
use crate::units::{notional, notional_of};
use vstd::prelude::*;

verus! {

/// One price of a side with the quantity offered at it.
#[derive(Clone, Copy, Debug, PartialEq, Eq, Structural)]
pub struct Level {
    pub price: u64,
    pub quantity: u64,
}

/// Price `a` comes before price `b` on a side: it is higher on a
/// descending side and lower on an ascending one.
pub open spec fn outranks(a: u64, b: u64, descending: bool) -> bool {
    if descending {
        a > b
    } else {
        a < b
    }
}

/// The levels that come before `price`.
pub open spec fn before_price(price: u64, descending: bool) -> spec_fn(Level) -> bool {
    |level: Level| outranks(level.price, price, descending)
}

/// The levels that come after `price`.
pub open spec fn after_price(price: u64, descending: bool) -> spec_fn(Level) -> bool {
    |level: Level| outranks(price, level.price, descending)
}

/// Price of the level at index `i`.
pub open spec fn price_at(levels: Seq<Level>, i: int) -> u64 {
    levels[i].price
}

/// The levels are in strict order of price, best first, and none is
/// empty.
pub open spec fn is_ladder(levels: Seq<Level>, descending: bool) -> bool {
    &&& forall|i: int, j: int|
        0 <= i < j < levels.len() ==> outranks(
            #[trigger] price_at(levels, i),
            #[trigger] price_at(levels, j),
            descending,
        )
    &&& forall|i: int| 0 <= i < levels.len() ==> (#[trigger] levels[i]).quantity > 0
}

/// The side with the price of `level` set to its quantity: the levels
/// before that price, then `level` unless it is empty, then the levels
/// after that price.
pub open spec fn upsert(levels: Seq<Level>, level: Level, descending: bool) -> Seq<Level> {
    let better = levels.filter(before_price(level.price, descending));
    let worse = levels.filter(after_price(level.price, descending));
    if level.quantity > 0 {
        better.push(level) + worse
    } else {
        better + worse
    }
}

/// The first `depth` levels, or all of them if there are fewer.
pub open spec fn capped(levels: Seq<Level>, depth: u64) -> Seq<Level> {
    if levels.len() > depth {
        levels.take(depth as int)
    } else {
        levels
    }
}

/// Total value of the levels.
pub open spec fn levels_value(levels: Seq<Level>) -> nat
    decreases levels.len(),
{
    if levels.len() == 0 {
        0
    } else {
        levels_value(levels.drop_last()) + notional(levels.last().price, levels.last().quantity)
    }
}

/// Total quantity of the levels.
pub open spec fn levels_quantity(levels: Seq<Level>) -> nat
    decreases levels.len(),
{
    if levels.len() == 0 {
        0
    } else {
        levels_quantity(levels.drop_last()) + levels.last().quantity as nat
    }
}

/// Cost of taking `quantity` from the levels, best first: each level is
/// taken whole while more is wanted than it holds, and the level that
/// holds the rest is taken in part. When the levels hold less than
/// `quantity`, the cost of all they hold.
pub open spec fn fill_cost(levels: Seq<Level>, quantity: nat) -> nat
    decreases levels.len(),
{
    if levels.len() == 0 {
        0
    } else if quantity > levels[0].quantity {
        notional(levels[0].price, levels[0].quantity) + fill_cost(
            levels.drop_first(),
            (quantity - levels[0].quantity) as nat,
        )
    } else {
        levels[0].price as nat * quantity
    }
}

/// Volume-weighted average price of the first `depth` levels; zero when
/// they hold nothing.
pub open spec fn average_by_depth(levels: Seq<Level>, depth: u64) -> nat {
    let top = capped(levels, depth);
    if levels_quantity(top) == 0 {
        0
    } else {
        levels_value(top) / levels_quantity(top)
    }
}

/// Difference between what one unit costs to buy and what one unit
/// brings when sold, for `quantity` units; zero for no unit.
pub open spec fn spread_by_quantity(asks: Seq<Level>, bids: Seq<Level>, quantity: u64) -> int {
    if quantity == 0 {
        0
    } else {
        fill_cost(asks, quantity as nat) / (quantity as nat) - fill_cost(bids, quantity as nat) / (
        quantity as nat)
    }
}

proof fn lemma_filter_all(levels: Seq<Level>, pred: spec_fn(Level) -> bool)
    requires
        forall|i: int| 0 <= i < levels.len() ==> pred(#[trigger] levels[i]),
    ensures
        levels.filter(pred) == levels,
    decreases levels.len(),
{
    reveal(Seq::filter);
    if levels.len() > 0 {
        let init = levels.drop_last();
        assert forall|i: int| 0 <= i < init.len() implies pred(#[trigger] init[i]) by {
            assert(init[i] == levels[i]);
        }
        lemma_filter_all(init, pred);
        assert(pred(levels.last()));
        assert(init.push(levels.last()) =~= levels);
    }
}

proof fn lemma_filter_none(levels: Seq<Level>, pred: spec_fn(Level) -> bool)
    requires
        forall|i: int| 0 <= i < levels.len() ==> !pred(#[trigger] levels[i]),
    ensures
        levels.filter(pred) == Seq::<Level>::empty(),
    decreases levels.len(),
{
    reveal(Seq::filter);
    if levels.len() > 0 {
        let init = levels.drop_last();
        assert forall|i: int| 0 <= i < init.len() implies !pred(#[trigger] init[i]) by {
            assert(init[i] == levels[i]);
        }
        lemma_filter_none(init, pred);
        assert(!pred(levels.last()));
    } else {
        assert(levels =~= Seq::<Level>::empty());
    }
}

/// A price that does not come before `price` has only prices after it
/// that do not either, and a price that comes after `price` has only
/// such prices after it.
proof fn lemma_order(a: u64, b: u64, price: u64, descending: bool)
    requires
        outranks(a, b, descending),
    ensures
        !outranks(a, price, descending) ==> !outranks(b, price, descending) && outranks(
            price,
            b,
            descending,
        ),
        outranks(b, price, descending) ==> outranks(a, price, descending),
        outranks(price, a, descending) ==> outranks(price, b, descending),
{
}

/// `k` is the number of levels before `price`, and `m` the index of
/// the first level after it.
spec fn splits_at(
    levels: Seq<Level>,
    price: u64,
    descending: bool,
    k: int,
    m: int,
) -> bool {
    &&& 0 <= k <= m <= levels.len()
    &&& forall|i: int| 0 <= i < k ==> outranks((#[trigger] levels[i]).price, price, descending)
    &&& forall|i: int|
        m <= i < levels.len() ==> outranks(price, (#[trigger] levels[i]).price, descending)
    &&& m == k || (m == k + 1 && levels[k].price == price)
}

/// The levels up to index `k`, then `level` unless it is empty, then the
/// levels from index `m`.
spec fn splice(levels: Seq<Level>, level: Level, k: int, m: int) -> Seq<Level> {
    if level.quantity > 0 {
        levels.take(k).push(level) + levels.skip(m)
    } else {
        levels.take(k) + levels.skip(m)
    }
}

/// Index of the first level that does not come before `price`.
proof fn lemma_split(levels: Seq<Level>, price: u64, descending: bool) -> (k: int)
    ensures
        0 <= k <= levels.len(),
        forall|i: int| 0 <= i < k ==> outranks((#[trigger] levels[i]).price, price, descending),
        k < levels.len() ==> !outranks(levels[k].price, price, descending),
    decreases levels.len(),
{
    if levels.len() == 0 {
        0
    } else {
        let init = levels.drop_last();
        let k = lemma_split(init, price, descending);
        assert forall|i: int| 0 <= i < k implies outranks(
            (#[trigger] levels[i]).price,
            price,
            descending,
        ) by {
            assert(init[i] == levels[i]);
        }
        if k < init.len() {
            assert(init[k] == levels[k]);
            k
        } else if outranks(levels.last().price, price, descending) {
            levels.len() as int
        } else {
            k
        }
    }
}

/// In a ladder, behind the levels before a price come at most the level
/// of that price and then only levels after it.
proof fn lemma_splits(levels: Seq<Level>, price: u64, descending: bool, k: int) -> (m: int)
    requires
        is_ladder(levels, descending),
        0 <= k <= levels.len(),
        forall|i: int| 0 <= i < k ==> outranks((#[trigger] levels[i]).price, price, descending),
        k < levels.len() ==> !outranks(levels[k].price, price, descending),
    ensures
        splits_at(levels, price, descending, k, m),
        m == if k < levels.len() && levels[k].price == price {
            k + 1
        } else {
            k
        },
{
    let m: int = if k < levels.len() && levels[k].price == price {
        k + 1
    } else {
        k
    };
    assert forall|i: int| m <= i < levels.len() implies outranks(
        price,
        (#[trigger] levels[i]).price,
        descending,
    ) by {
        if i > k {
            assert(outranks(price_at(levels, k), price_at(levels, i), descending));
            lemma_order(levels[k].price, levels[i].price, price, descending);
        }
    }
    m
}

/// Where a predicate holds of the first `k` levels and of no other, it
/// keeps exactly those.
proof fn lemma_filter_prefix(levels: Seq<Level>, pred: spec_fn(Level) -> bool, k: int)
    requires
        0 <= k <= levels.len(),
        forall|i: int| 0 <= i < k ==> pred(#[trigger] levels[i]),
        forall|i: int| k <= i < levels.len() ==> !pred(#[trigger] levels[i]),
    ensures
        levels.filter(pred) == levels.take(k),
{
    let head = levels.take(k);
    let tail = levels.skip(k);
    assert(head + tail =~= levels);
    assert forall|i: int| 0 <= i < tail.len() implies !pred(#[trigger] tail[i]) by {
        assert(tail[i] == levels[k + i]);
    }
    assert forall|i: int| 0 <= i < head.len() implies pred(#[trigger] head[i]) by {
        assert(head[i] == levels[i]);
    }
    lemma_filter_all(head, pred);
    lemma_filter_none(tail, pred);
    Seq::filter_distributes_over_add(head, tail, pred);
    assert(head + Seq::<Level>::empty() =~= head);
}

/// Where a predicate holds of the levels from index `m` and of no other,
/// it keeps exactly those.
proof fn lemma_filter_suffix(levels: Seq<Level>, pred: spec_fn(Level) -> bool, m: int)
    requires
        0 <= m <= levels.len(),
        forall|i: int| 0 <= i < m ==> !pred(#[trigger] levels[i]),
        forall|i: int| m <= i < levels.len() ==> pred(#[trigger] levels[i]),
    ensures
        levels.filter(pred) == levels.skip(m),
{
    let low = levels.take(m);
    let high = levels.skip(m);
    assert(low + high =~= levels);
    assert forall|i: int| 0 <= i < low.len() implies !pred(#[trigger] low[i]) by {
        assert(low[i] == levels[i]);
    }
    assert forall|i: int| 0 <= i < high.len() implies pred(#[trigger] high[i]) by {
        assert(high[i] == levels[m + i]);
    }
    lemma_filter_none(low, pred);
    lemma_filter_all(high, pred);
    Seq::filter_distributes_over_add(low, high, pred);
    assert(Seq::<Level>::empty() + high =~= high);
}

/// Where a side splits at a price, setting that price is a splice.
proof fn lemma_upsert_is_splice(
    levels: Seq<Level>,
    level: Level,
    descending: bool,
    k: int,
    m: int,
)
    requires
        splits_at(levels, level.price, descending, k, m),
    ensures
        upsert(levels, level, descending) == splice(levels, level, k, m),
{
    let before = before_price(level.price, descending);
    let after = after_price(level.price, descending);
    assert(levels.filter(before) == levels.take(k)) by {
        assert forall|i: int| k <= i < levels.len() implies !before(#[trigger] levels[i]) by {}
        lemma_filter_prefix(levels, before, k);
    }
    assert(levels.filter(after) == levels.skip(m)) by {
        assert forall|i: int| 0 <= i < m implies !after(#[trigger] levels[i]) by {}
        lemma_filter_suffix(levels, after, m);
    }
}

/// Writing `level` at index `k`, taking the level at index `k` out, and
/// putting `level` in at index `k`, each as a splice.
proof fn lemma_edits_are_splices(levels: Seq<Level>, level: Level, k: int)
    requires
        0 <= k <= levels.len(),
    ensures
        k < levels.len() ==> levels.update(k, level) == levels.take(k).push(level) + levels.skip(
            k + 1,
        ),
        k < levels.len() ==> levels.remove(k) == levels.take(k) + levels.skip(k + 1),
        levels.insert(k, level) == levels.take(k).push(level) + levels.skip(k),
        levels == levels.take(k) + levels.skip(k),
{
    if k < levels.len() {
        assert(levels.update(k, level) =~= levels.take(k).push(level) + levels.skip(k + 1));
        assert(levels.remove(k) =~= levels.take(k) + levels.skip(k + 1));
    }
    assert(levels.insert(k, level) =~= levels.take(k).push(level) + levels.skip(k));
    assert(levels =~= levels.take(k) + levels.skip(k));
}

/// The levels of a splice, index by index.
proof fn lemma_splice_index(levels: Seq<Level>, level: Level, k: int, m: int)
    requires
        0 <= k <= m <= levels.len(),
    ensures
        level.quantity > 0 ==> splice(levels, level, k, m).len() == k + 1 + levels.len() - m,
        level.quantity == 0 ==> splice(levels, level, k, m).len() == k + levels.len() - m,
        forall|i: int| 0 <= i < k ==> (#[trigger] splice(levels, level, k, m)[i]) == levels[i],
        level.quantity > 0 ==> splice(levels, level, k, m)[k] == level,
        level.quantity > 0 ==> forall|i: int|
            k < i < k + 1 + levels.len() - m ==> (#[trigger] splice(levels, level, k, m)[i])
                == levels[i - k - 1 + m],
        level.quantity == 0 ==> forall|i: int|
            k <= i < k + levels.len() - m ==> (#[trigger] splice(levels, level, k, m)[i])
                == levels[i - k + m],
{
}

/// A splice of a ladder at the place where it splits is a ladder.
proof fn lemma_splice_ladder(levels: Seq<Level>, level: Level, descending: bool, k: int, m: int)
    requires
        is_ladder(levels, descending),
        splits_at(levels, level.price, descending, k, m),
    ensures
        is_ladder(splice(levels, level, k, m), descending),
{
    let full = splice(levels, level, k, m);
    lemma_splice_index(levels, level, k, m);
    assert forall|i: int, j: int| 0 <= i < j < full.len() implies outranks(
        #[trigger] price_at(full, i),
        #[trigger] price_at(full, j),
        descending,
    ) by {
        if level.quantity > 0 {
            if j < k {
                assert(outranks(price_at(levels, i), price_at(levels, j), descending));
            } else if j == k {
                assert(full[i] == levels[i]);
            } else if i < k {
                assert(full[i] == levels[i]);
                assert(full[j] == levels[j - k - 1 + m]);
                assert(outranks(price_at(levels, i), price_at(levels, j - k - 1 + m), descending));
            } else if i == k {
                assert(full[j] == levels[j - k - 1 + m]);
            } else {
                assert(full[i] == levels[i - k - 1 + m]);
                assert(full[j] == levels[j - k - 1 + m]);
                assert(outranks(
                    price_at(levels, i - k - 1 + m),
                    price_at(levels, j - k - 1 + m),
                    descending,
                ));
            }
        } else {
            if j < k {
                assert(outranks(price_at(levels, i), price_at(levels, j), descending));
            } else if i < k {
                assert(full[i] == levels[i]);
                assert(full[j] == levels[j - k + m]);
                assert(outranks(price_at(levels, i), price_at(levels, j - k + m), descending));
            } else {
                assert(full[i] == levels[i - k + m]);
                assert(full[j] == levels[j - k + m]);
                assert(outranks(
                    price_at(levels, i - k + m),
                    price_at(levels, j - k + m),
                    descending,
                ));
            }
        }
    }
    assert forall|i: int| 0 <= i < full.len() implies (#[trigger] full[i]).quantity > 0 by {
        if level.quantity > 0 {
            if i < k {
                assert(full[i] == levels[i]);
            } else if i > k {
                assert(full[i] == levels[i - k - 1 + m]);
            }
        } else {
            if i < k {
                assert(full[i] == levels[i]);
            } else {
                assert(full[i] == levels[i - k + m]);
            }
        }
    }
}

/// A splice at the place where the side splits holds `level` unless it
/// is empty, no other level of its price, and of every other price the
/// levels that the side held.
proof fn lemma_splice_contents(levels: Seq<Level>, level: Level, descending: bool, k: int, m: int)
    requires
        splits_at(levels, level.price, descending, k, m),
    ensures
        level.quantity > 0 ==> splice(levels, level, k, m).contains(level),
        forall|other: Level|
            other.price != level.price ==> (#[trigger] splice(levels, level, k, m).contains(other)
                <==> levels.contains(other)),
        forall|other: Level|
            other.price == level.price && #[trigger] splice(levels, level, k, m).contains(other)
                ==> other == level && level.quantity > 0,
{
    let full = splice(levels, level, k, m);
    lemma_splice_index(levels, level, k, m);
    if level.quantity > 0 {
        assert(full[k] == level);
    }
    assert forall|other: Level| other.price != level.price implies (#[trigger] full.contains(
        other,
    ) <==> levels.contains(other)) by {
        if full.contains(other) {
            let i = choose|i: int| 0 <= i < full.len() && full[i] == other;
            if level.quantity > 0 {
                if i < k {
                    assert(levels[i] == other);
                } else {
                    assert(levels[i - k - 1 + m] == other);
                }
            } else {
                if i < k {
                    assert(levels[i] == other);
                } else {
                    assert(levels[i - k + m] == other);
                }
            }
        }
        if levels.contains(other) {
            let i = choose|i: int| 0 <= i < levels.len() && levels[i] == other;
            if i < k {
                assert(full[i] == other);
            } else {
                assert(i >= m);
                if level.quantity > 0 {
                    assert(full[i - m + k + 1] == other);
                } else {
                    assert(full[i - m + k] == other);
                }
            }
        }
    }
    assert forall|other: Level|
        other.price == level.price && #[trigger] full.contains(other) implies other == level
        && level.quantity > 0 by {
        let i = choose|i: int| 0 <= i < full.len() && full[i] == other;
        if level.quantity > 0 {
            if i < k {
                assert(full[i] == levels[i]);
            } else if i > k {
                assert(full[i] == levels[i - k - 1 + m]);
            }
        } else {
            if i < k {
                assert(full[i] == levels[i]);
            } else {
                assert(full[i] == levels[i - k + m]);
            }
        }
    }
}

/// A ladder cut to a depth is a ladder of at most that many levels, the
/// first of the ladder, and each of them comes before every level that
/// was cut.
proof fn lemma_capped_ladder(levels: Seq<Level>, descending: bool, depth: u64)
    requires
        is_ladder(levels, descending),
    ensures
        is_ladder(capped(levels, depth), descending),
        capped(levels, depth).len() <= depth,
        capped(levels, depth).len() <= levels.len(),
        forall|i: int|
            0 <= i < capped(levels, depth).len() ==> (#[trigger] capped(levels, depth)[i])
                == levels[i],
        forall|i: int, j: int|
            0 <= i < capped(levels, depth).len() <= j < levels.len() ==> outranks(
                #[trigger] price_at(levels, i),
                #[trigger] price_at(levels, j),
                descending,
            ),
{
    let cut = capped(levels, depth);
    assert forall|i: int, j: int| 0 <= i < j < cut.len() implies outranks(
        #[trigger] price_at(cut, i),
        #[trigger] price_at(cut, j),
        descending,
    ) by {
        assert(outranks(price_at(levels, i), price_at(levels, j), descending));
    }
}

/// Setting a price on a ladder gives a ladder with at most one level
/// more, in which the price has the quantity set, or no level if that
/// quantity is zero, and every other price has the quantity that it had.
/// When the side is then cut to its depth, the levels kept are the first
/// of that ladder, and every level cut is worse than every level kept:
/// what leaves a full side is its worst price.
pub proof fn lemma_upsert_ladder(levels: Seq<Level>, level: Level, descending: bool, depth: u64)
    requires
        is_ladder(levels, descending),
    ensures
        is_ladder(upsert(levels, level, descending), descending),
        is_ladder(capped(upsert(levels, level, descending), depth), descending),
        capped(upsert(levels, level, descending), depth).len() <= depth,
        upsert(levels, level, descending).len() <= levels.len() + 1,
        level.quantity > 0 ==> upsert(levels, level, descending).contains(level),
        forall|other: Level|
            other.price != level.price ==> (#[trigger] upsert(levels, level, descending).contains(
                other,
            ) <==> levels.contains(other)),
        forall|other: Level|
            other.price == level.price && #[trigger] upsert(levels, level, descending).contains(
                other,
            ) ==> other == level && level.quantity > 0,
        forall|i: int|
            0 <= i < capped(upsert(levels, level, descending), depth).len() ==> (#[trigger] capped(
                upsert(levels, level, descending),
                depth,
            )[i]) == upsert(levels, level, descending)[i],
        forall|i: int, j: int|
            0 <= i < capped(upsert(levels, level, descending), depth).len() <= j < upsert(
                levels,
                level,
                descending,
            ).len() ==> outranks(
                #[trigger] price_at(upsert(levels, level, descending), i),
                #[trigger] price_at(upsert(levels, level, descending), j),
                descending,
            ),
{
    let k = lemma_split(levels, level.price, descending);
    let m = lemma_splits(levels, level.price, descending, k);
    lemma_upsert_is_splice(levels, level, descending, k, m);
    lemma_splice_index(levels, level, k, m);
    lemma_splice_ladder(levels, level, descending, k, m);
    lemma_splice_contents(levels, level, descending, k, m);
    lemma_capped_ladder(upsert(levels, level, descending), descending, depth);
}

/// With `level` behind them, the value and the quantity of levels grow
/// by those of `level`.
proof fn lemma_levels_push(levels: Seq<Level>, level: Level)
    ensures
        levels_value(levels.push(level)) == levels_value(levels) + notional(
            level.price,
            level.quantity,
        ),
        levels_quantity(levels.push(level)) == levels_quantity(levels) + level.quantity,
{
    assert(levels.push(level).drop_last() =~= levels);
    assert(levels.push(level).last() == level);
}

/// The value of levels is at most the greatest price times their
/// quantity, and the value and quantity of a prefix are at most those of
/// the whole.
proof fn lemma_levels_bounds(levels: Seq<Level>, n: int)
    requires
        0 <= n <= levels.len(),
    ensures
        levels_value(levels.take(n)) <= levels_value(levels),
        levels_quantity(levels.take(n)) <= levels_quantity(levels),
        levels_value(levels) <= u64::MAX * levels_quantity(levels),
        levels_quantity(levels) <= u64::MAX * levels.len(),
    decreases levels.len(),
{
    if levels.len() == 0 {
        assert(levels.take(n) =~= levels);
    } else {
        let init = levels.drop_last();
        let last = levels.last();
        crate::units::lemma_notional_bound(last.price, last.quantity);
        assert(u64::MAX * (levels_quantity(init) + last.quantity) == u64::MAX * levels_quantity(
            init,
        ) + u64::MAX * last.quantity) by (nonlinear_arith);
        assert(u64::MAX * (init.len() + 1) == u64::MAX * init.len() + u64::MAX)
            by (nonlinear_arith);
        if n == levels.len() {
            assert(levels.take(n) =~= levels);
            lemma_levels_bounds(init, 0);
        } else {
            assert(levels.take(n) =~= init.take(n));
            lemma_levels_bounds(init, n);
        }
    }
}

/// The cost of a quantity is at most the greatest price times that
/// quantity.
pub proof fn lemma_fill_cost_bound(levels: Seq<Level>, quantity: nat)
    ensures
        fill_cost(levels, quantity) <= u64::MAX * quantity,
    decreases levels.len(),
{
    if levels.len() > 0 {
        let first = levels[0];
        if quantity > first.quantity {
            let rest = (quantity - first.quantity) as nat;
            lemma_fill_cost_bound(levels.drop_first(), rest);
            crate::units::lemma_notional_bound(first.price, first.quantity);
            assert(u64::MAX * quantity == u64::MAX * first.quantity + u64::MAX * rest)
                by (nonlinear_arith)
                requires
                    quantity == first.quantity + rest,
            ;
        } else {
            assert(first.price as nat * quantity <= u64::MAX * quantity) by (nonlinear_arith)
                requires
                    first.price <= u64::MAX,
            ;
        }
    }
}

/// The value and the quantity of levels are those of the first level
/// and of the levels behind it together.
proof fn lemma_levels_first(levels: Seq<Level>)
    requires
        levels.len() > 0,
    ensures
        levels_value(levels) == notional(levels[0].price, levels[0].quantity) + levels_value(
            levels.drop_first(),
        ),
        levels_quantity(levels) == levels[0].quantity + levels_quantity(levels.drop_first()),
    decreases levels.len(),
{
    if levels.len() == 1 {
        assert(levels.drop_last() =~= levels.drop_first());
    } else {
        let init = levels.drop_last();
        lemma_levels_first(init);
        assert(init.drop_first() =~= levels.drop_first().drop_last());
        assert(levels.drop_first().last() == levels.last());
        assert(init[0] == levels[0]);
    }
}

/// A quantity that the levels cannot fill costs what all the levels hold:
/// the cost of at least the quantity of the levels is their value.
pub proof fn lemma_fill_cost_of_all(levels: Seq<Level>, quantity: nat)
    requires
        quantity >= levels_quantity(levels),
    ensures
        fill_cost(levels, quantity) == levels_value(levels),
    decreases levels.len(),
{
    if levels.len() > 0 {
        lemma_levels_first(levels);
        let first = levels[0];
        if quantity > first.quantity {
            lemma_fill_cost_of_all(levels.drop_first(), (quantity - first.quantity) as nat);
        } else {
            let rest = levels.drop_first();
            assert(levels_quantity(rest) == 0);
            lemma_levels_bounds(rest, 0);
            assert(levels_value(rest) == 0) by (nonlinear_arith)
                requires
                    levels_value(rest) <= u64::MAX * levels_quantity(rest),
                    levels_quantity(rest) == 0,
            ;
        }
    }
}

/// For one state of a side, a larger quantity never costs less: the
/// cost of a fill does not decrease as the quantity grows.
pub proof fn lemma_fill_cost_monotonic(levels: Seq<Level>, smaller: nat, larger: nat)
    requires
        smaller <= larger,
    ensures
        fill_cost(levels, smaller) <= fill_cost(levels, larger),
    decreases levels.len(),
{
    if levels.len() > 0 {
        let first = levels[0];
        if smaller > first.quantity {
            lemma_fill_cost_monotonic(
                levels.drop_first(),
                (smaller - first.quantity) as nat,
                (larger - first.quantity) as nat,
            );
        } else if larger > first.quantity {
            assert(first.price as nat * smaller <= (first.price as nat) * (first.quantity as nat))
                by (nonlinear_arith)
                requires
                    smaller <= first.quantity,
            ;
        } else {
            assert(first.price as nat * smaller <= first.price as nat * larger)
                by (nonlinear_arith)
                requires
                    smaller <= larger,
            ;
        }
    }
}

fn comes_before(a: u64, b: u64, descending: bool) -> (before: bool)
    ensures
        before == outranks(a, b, descending),
{
    if descending {
        a > b
    } else {
        a < b
    }
}

/// Sets the price of `level` to its quantity on a side and cuts the side
/// to `depth` levels.
fn set_level(levels: &mut Vec<Level>, level: Level, descending: bool, depth: u64)
    requires
        is_ladder(old(levels)@, descending),
    ensures
        final(levels)@ == capped(upsert(old(levels)@, level, descending), depth),
{
    let k: usize = rank_of(levels, level, descending);
    let present: bool = k < levels.len() && levels[k].price == level.price;
    splice_at(levels, level, k, present);
    cut_to(levels, depth);
}

/// Keeps the first `depth` levels.
fn cut_to(levels: &mut Vec<Level>, depth: u64)
    ensures
        final(levels)@ == capped(old(levels)@, depth),
{
    if levels.len() as u64 > depth {
        levels.truncate(depth as usize);
    }
}

/// Puts `level`, unless it is empty, at index `k`, in place of the level
/// there if `present`.
fn splice_at(levels: &mut Vec<Level>, level: Level, k: usize, present: bool)
    requires
        k <= old(levels).len(),
        present ==> k < old(levels).len(),
    ensures
        final(levels)@ == splice(
            old(levels)@,
            level,
            k as int,
            if present {
                k + 1
            } else {
                k as int
            },
        ),
{
    proof {
        lemma_edits_are_splices(levels@, level, k as int);
    }
    if present {
        if level.quantity > 0 {
            levels[k] = level;
        } else {
            levels.remove(k);
        }
    } else if level.quantity > 0 {
        levels.insert(k, level);
    }
}

/// Number of levels of a ladder that come before the price of `level`.
fn rank_of(levels: &Vec<Level>, level: Level, descending: bool) -> (k: usize)
    requires
        is_ladder(levels@, descending),
    ensures
        k <= levels.len(),
        upsert(levels@, level, descending) == splice(
            levels@,
            level,
            k as int,
            if k < levels.len() && levels@[k as int].price == level.price {
                k + 1
            } else {
                k as int
            },
        ),
{
    let mut k: usize = 0;
    while k < levels.len() && comes_before(levels[k].price, level.price, descending)
        invariant
            k <= levels.len(),
            forall|i: int|
                0 <= i < k ==> outranks((#[trigger] levels@[i]).price, level.price, descending),
        decreases levels.len() - k,
    {
        k += 1;
    }
    proof {
        let m = lemma_splits(levels@, level.price, descending, k as int);
        lemma_upsert_is_splice(levels@, level, descending, k as int, m);
    }
    k
}

/// Cost of taking `quantity` from a side, best first.
fn cost_to_fill(levels: &Vec<Level>, quantity: u64) -> (cost: u128)
    ensures
        cost == fill_cost(levels@, quantity as nat),
{
    let mut remaining: u64 = quantity;
    let mut cost: u128 = 0;
    let mut i: usize = 0;
    assert(levels@.skip(0) =~= levels@);
    while i < levels.len()
        invariant
            i <= levels.len(),
            remaining <= quantity,
            cost <= u64::MAX * (quantity - remaining),
            fill_cost(levels@, quantity as nat) == cost + fill_cost(
                levels@.skip(i as int),
                remaining as nat,
            ),
        decreases levels.len() - i,
    {
        let level: Level = levels[i];
        proof {
            let rest = levels@.skip(i as int);
            assert(rest[0] == level);
            assert(rest.drop_first() =~= levels@.skip(i + 1));
            crate::units::lemma_notional_bound(level.price, level.quantity);
            crate::units::lemma_notional_bound(level.price, remaining);
            assert(u64::MAX * (quantity - remaining) + u64::MAX * remaining == u64::MAX
                * quantity) by (nonlinear_arith);
            assert(u64::MAX * (quantity - remaining) + u64::MAX * level.quantity == u64::MAX * (
            quantity - remaining + level.quantity)) by (nonlinear_arith);
            assert(u64::MAX * quantity <= u64::MAX * u64::MAX) by (nonlinear_arith)
                requires
                    quantity <= u64::MAX,
            ;
            assert(remaining > level.quantity ==> u64::MAX * (quantity - remaining
                + level.quantity) <= u64::MAX * quantity) by (nonlinear_arith);
        }
        if remaining > level.quantity {
            cost = cost + notional_of(level.price, level.quantity);
            remaining = remaining - level.quantity;
        } else {
            cost = cost + notional_of(level.price, remaining);
            return cost;
        }
        i += 1;
    }
    assert(levels@.skip(i as int).len() == 0);
    cost
}

/// Volume-weighted average price of the first `depth` levels of a side.
fn average_of_top(levels: &Vec<Level>, depth: u64) -> (average: u64)
    requires
        levels_value(capped(levels@, depth)) <= u128::MAX,
    ensures
        average == average_by_depth(levels@, depth),
{
    let count: usize = if levels.len() as u64 > depth {
        depth as usize
    } else {
        levels.len()
    };
    let ghost top = capped(levels@, depth);
    assert(top =~= levels@.take(count as int));
    let mut total_amount: u128 = 0;
    let mut total_quantity: u128 = 0;
    let mut i: usize = 0;
    while i < count
        invariant
            i <= count <= levels.len(),
            top == levels@.take(count as int),
            levels_value(top) <= u128::MAX,
            total_amount == levels_value(top.take(i as int)),
            total_quantity == levels_quantity(top.take(i as int)),
        decreases count - i,
    {
        let level: Level = levels[i];
        proof {
            assert(top.take(i + 1) =~= top.take(i as int).push(level));
            lemma_levels_push(top.take(i as int), level);
            lemma_levels_bounds(top, i + 1);
            assert(u64::MAX * top.take(i + 1).len() <= u64::MAX * usize::MAX)
                by (nonlinear_arith)
                requires
                    top.take(i + 1).len() <= usize::MAX,
            ;
            lemma_levels_bounds(top.take(i + 1), 0);
        }
        total_amount = total_amount + notional_of(level.price, level.quantity);
        total_quantity = total_quantity + level.quantity as u128;
        i += 1;
    }
    proof {
        assert(top.take(count as int) =~= top);
        lemma_levels_bounds(top, 0);
    }
    if total_quantity == 0 {
        0
    } else {
        proof {
            assert(total_amount as int / total_quantity as int <= u64::MAX) by (nonlinear_arith)
                requires
                    total_quantity > 0,
                    0 <= total_amount <= u64::MAX * total_quantity,
            ;
        }
        (total_amount / total_quantity) as u64
    }
}

/// Mathematical value of an order book.
pub struct OrderBookView<Account> {
    pub symbol: String,
    pub depth: u64,
    /// Bid levels, highest price first.
    pub bids: Seq<Level>,
    /// Ask levels, lowest price first.
    pub asks: Seq<Level>,
    /// The account that the book is read for.
    pub client_account: Account,
}

impl<Account> OrderBookView<Account> {
    pub open spec fn wf(self) -> bool {
        &&& is_ladder(self.bids, true)
        &&& is_ladder(self.asks, false)
        &&& self.bids.len() <= self.depth
        &&& self.asks.len() <= self.depth
    }

    /// The book after the bid at `price` is set to `quantity`.
    pub open spec fn with_bid(self, price: u64, quantity: u64) -> OrderBookView<Account> {
        OrderBookView {
            bids: capped(upsert(self.bids, Level { price, quantity }, true), self.depth),
            ..self
        }
    }

    /// The book after the ask at `price` is set to `quantity`.
    pub open spec fn with_ask(self, price: u64, quantity: u64) -> OrderBookView<Account> {
        OrderBookView {
            asks: capped(upsert(self.asks, Level { price, quantity }, false), self.depth),
            ..self
        }
    }

    /// The book after one update.
    pub open spec fn with_update(self, update: BookUpdate) -> OrderBookView<Account> {
        if update.bid {
            self.with_bid(update.price, update.quantity)
        } else {
            self.with_ask(update.price, update.quantity)
        }
    }

    /// The book after a sequence of updates, first to last.
    pub open spec fn with_updates(self, updates: Seq<BookUpdate>) -> OrderBookView<Account>
        decreases updates.len(),
    {
        if updates.len() == 0 {
            self
        } else {
            self.with_updates(updates.drop_last()).with_update(updates.last())
        }
    }
}

/// One change of a book: the quantity at a price of one side.
pub struct BookUpdate {
    /// The bids are changed, not the asks.
    pub bid: bool,
    pub price: u64,
    pub quantity: u64,
}

/// Whatever bids and asks are set in a book, and in whatever order,
/// neither side ever holds more levels than the depth of the book, and
/// each side stays in strict order of price.
pub proof fn lemma_book_stays_bounded<Account>(
    book: OrderBookView<Account>,
    updates: Seq<BookUpdate>,
)
    requires
        book.wf(),
    ensures
        book.with_updates(updates).wf(),
        book.with_updates(updates).bids.len() <= book.depth,
        book.with_updates(updates).asks.len() <= book.depth,
        book.with_updates(updates).depth == book.depth,
    decreases updates.len(),
{
    if updates.len() > 0 {
        lemma_book_stays_bounded(book, updates.drop_last());
        let before = book.with_updates(updates.drop_last());
        let update = updates.last();
        let level = Level { price: update.price, quantity: update.quantity };
        if update.bid {
            lemma_upsert_ladder(before.bids, level, true, before.depth);
        } else {
            lemma_upsert_ladder(before.asks, level, false, before.depth);
        }
    }
}

/// The bids and asks of one symbol, each side cut to the depth of the
/// book.
pub struct OrderBook<Account: ClientAccount> {
    symbol: String,
    depth: u64,
    bids: Vec<Level>,
    asks: Vec<Level>,
    client_account: Account,
}

impl<Account: ClientAccount> View for OrderBook<Account> {
    type V = OrderBookView<Account>;

    closed spec fn view(&self) -> OrderBookView<Account> {
        OrderBookView {
            symbol: self.symbol,
            depth: self.depth,
            bids: self.bids@,
            asks: self.asks@,
            client_account: self.client_account,
        }
    }
}

impl<Account: ClientAccount> OrderBook<Account> {
    pub open spec fn wf(&self) -> bool {
        self@.wf()
    }

    /// An empty book for `symbol`, read for `client_account`, that keeps
    /// `depth` levels a side.
    pub fn new(client_account: Account, symbol: String, depth: u64) -> (book: OrderBook<Account>)
        ensures
            book.wf(),
            book@ == (OrderBookView {
                symbol,
                depth,
                bids: Seq::<Level>::empty(),
                asks: Seq::<Level>::empty(),
                client_account,
            }),
    {
        let book: OrderBook<Account> = OrderBook {
            symbol,
            depth,
            bids: Vec::new(),
            asks: Vec::new(),
            client_account,
        };
        assert(book@.bids =~= Seq::<Level>::empty());
        assert(book@.asks =~= Seq::<Level>::empty());
        book
    }

    /// The account that the book is read for.
    pub fn client_account(&self) -> (account: &Account)
        ensures
            *account == self@.client_account,
    {
        &self.client_account
    }

    /// Sets the bid at `price` to `quantity`; quantity zero withdraws the
    /// bid. If the bids then exceed the depth, the lowest is dropped.
    pub fn add_bid(&mut self, price: u64, quantity: u64)
        requires
            old(self).wf(),
        ensures
            final(self).wf(),
            final(self)@ == old(self)@.with_bid(price, quantity),
    {
        proof {
            lemma_upsert_ladder(self@.bids, Level { price, quantity }, true, self.depth);
        }
        set_level(&mut self.bids, Level { price, quantity }, true, self.depth);
    }

    /// Sets the ask at `price` to `quantity`; quantity zero withdraws the
    /// ask. If the asks then exceed the depth, the highest is dropped.
    pub fn add_ask(&mut self, price: u64, quantity: u64)
        requires
            old(self).wf(),
        ensures
            final(self).wf(),
            final(self)@ == old(self)@.with_ask(price, quantity),
    {
        proof {
            lemma_upsert_ladder(self@.asks, Level { price, quantity }, false, self.depth);
        }
        set_level(&mut self.asks, Level { price, quantity }, false, self.depth);
    }

    /// Volume-weighted average price of the `depth` best asks; zero when
    /// there is none.
    pub fn get_average_ask_amount_by_depth(&self, depth: u64) -> (average: u64)
        requires
            levels_value(capped(self@.asks, depth)) <= u128::MAX,
        ensures
            average == average_by_depth(self@.asks, depth),
    {
        average_of_top(&self.asks, depth)
    }

    /// Volume-weighted average price of the `depth` best bids; zero when
    /// there is none.
    pub fn get_average_bid_amount_by_depth(&self, depth: u64) -> (average: u64)
        requires
            levels_value(capped(self@.bids, depth)) <= u128::MAX,
        ensures
            average == average_by_depth(self@.bids, depth),
    {
        average_of_top(&self.bids, depth)
    }

    /// Whether the value of the `depth` best levels of each side can be
    /// summed within the machine's limits.
    pub fn can_average_by_depth(&self, depth: u64) -> (fits: bool)
        ensures
            fits == (levels_value(capped(self@.asks, depth)) <= u128::MAX && levels_value(
                capped(self@.bids, depth),
            ) <= u128::MAX),
    {
        value_fits(&self.asks, depth) && value_fits(&self.bids, depth)
    }

    /// Cost of buying `quantity` from the asks, lowest price first. When
    /// the asks hold less, the cost of all they hold.
    pub fn estimate_fill_price_asks(&self, quantity: u64) -> (cost: u128)
        ensures
            cost == fill_cost(self@.asks, quantity as nat),
    {
        cost_to_fill(&self.asks, quantity)
    }

    /// Proceeds of selling `quantity` to the bids, highest price first.
    /// When the bids hold less, the proceeds of all they hold.
    pub fn estimate_fill_price_bids(&self, quantity: u64) -> (cost: u128)
        ensures
            cost == fill_cost(self@.bids, quantity as nat),
    {
        cost_to_fill(&self.bids, quantity)
    }

    pub fn get_average_bid_amount_by_quantity(&self, quantity_to_fill: u64) -> (cost: u128)
        ensures
            cost == fill_cost(self@.bids, quantity_to_fill as nat),
    {
        self.estimate_fill_price_bids(quantity_to_fill)
    }

    pub fn get_average_ask_amount_by_quantity(&self, quantity_to_fill: u64) -> (cost: u128)
        ensures
            cost == fill_cost(self@.asks, quantity_to_fill as nat),
    {
        self.estimate_fill_price_asks(quantity_to_fill)
    }

    /// What one unit costs to buy less what one unit brings when sold,
    /// for `quantity_to_fill` units; zero for no unit.
    pub fn get_spread_by_quantity(&self, quantity_to_fill: u64) -> (spread: i128)
        ensures
            spread == spread_by_quantity(self@.asks, self@.bids, quantity_to_fill),
    {
        if quantity_to_fill == 0 {
            return 0;
        }
        let ask: u128 = self.estimate_fill_price_asks(quantity_to_fill) / (
        quantity_to_fill as u128);
        let bid: u128 = self.estimate_fill_price_bids(quantity_to_fill) / (
        quantity_to_fill as u128);
        proof {
            lemma_fill_cost_bound(self@.asks, quantity_to_fill as nat);
            lemma_fill_cost_bound(self@.bids, quantity_to_fill as nat);
            let q: int = quantity_to_fill as int;
            let a: int = fill_cost(self@.asks, quantity_to_fill as nat) as int;
            let b: int = fill_cost(self@.bids, quantity_to_fill as nat) as int;
            assert(a / q <= u64::MAX) by (nonlinear_arith)
                requires
                    q > 0,
                    0 <= a <= u64::MAX * q,
            ;
            assert(b / q <= u64::MAX) by (nonlinear_arith)
                requires
                    q > 0,
                    0 <= b <= u64::MAX * q,
            ;
        }
        ask as i128 - bid as i128
    }

    pub fn get_depth(&self) -> (depth: u64)
        ensures
            depth == self@.depth,
    {
        self.depth
    }

    /// The bids, highest price first.
    pub fn bids(&self) -> (bids: &Vec<Level>)
        ensures
            bids@ == self@.bids,
    {
        &self.bids
    }

    /// The asks, lowest price first.
    pub fn asks(&self) -> (asks: &Vec<Level>)
        ensures
            asks@ == self@.asks,
    {
        &self.asks
    }

    pub fn symbol(&self) -> (symbol: &String)
        ensures
            *symbol == self@.symbol,
    {
        &self.symbol
    }

    pub fn is_empty(&self) -> (empty: bool)
        ensures
            empty == (self@.bids.len() == 0 && self@.asks.len() == 0),
    {
        self.bids.is_empty() && self.asks.is_empty()
    }
}

/// Whether the value of the first `depth` levels can be summed within
/// the machine's limits.
fn value_fits(levels: &Vec<Level>, depth: u64) -> (fits: bool)
    ensures
        fits == (levels_value(capped(levels@, depth)) <= u128::MAX),
{
    let count: usize = if levels.len() as u64 > depth {
        depth as usize
    } else {
        levels.len()
    };
    let ghost top = capped(levels@, depth);
    assert(top =~= levels@.take(count as int));
    let mut total: u128 = 0;
    let mut i: usize = 0;
    while i < count
        invariant
            i <= count <= levels.len(),
            top == levels@.take(count as int),
            top == capped(levels@, depth),
            total == levels_value(top.take(i as int)),
        decreases count - i,
    {
        let level: Level = levels[i];
        let value: u128 = notional_of(level.price, level.quantity);
        proof {
            assert(top.take(i + 1) =~= top.take(i as int).push(level));
            lemma_levels_push(top.take(i as int), level);
            lemma_levels_bounds(top, i + 1);
        }
        if value > u128::MAX - total {
            return false;
        }
        total = total + value;
        i += 1;
    }
    proof {
        assert(top.take(count as int) =~= top);
    }
    true
}

} // verus!
