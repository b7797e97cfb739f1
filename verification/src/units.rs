//! Fixed-point conventions shared by the whole crate.

use vstd::prelude::*;

verus! {

/// One whole, expressed in the unit used for every ratio: parts per million.
pub const RATIO_SCALE: u64 = 1_000_000;

/// Exact value of `quantity` lots at `price` ticks each.
pub open spec fn notional(price: u64, quantity: u64) -> nat {
    (price as nat) * (quantity as nat)
}

/// Quotient `total / units`, or zero when there are no units.
pub open spec fn average_spec(total: nat, units: nat) -> nat {
    if units == 0 {
        0
    } else {
        total / units
    }
}

/// Relative move from `base` to `current` in parts per million, rounded
/// toward zero; zero when `base` is zero.
pub open spec fn change_ratio_spec(base: nat, current: nat) -> int {
    if base == 0 {
        0
    } else if current >= base {
        ((current - base) * 1_000_000) / (base as int)
    } else {
        -(((base - current) * 1_000_000) / (base as int))
    }
}

/// A notional amount is at most the greatest price times the quantity,
/// and always fits in 128 bits.
pub proof fn lemma_notional_bound(price: u64, quantity: u64)
    ensures
        notional(price, quantity) <= 0xFFFF_FFFF_FFFF_FFFF * 0xFFFF_FFFF_FFFF_FFFF,
        notional(price, quantity) <= u128::MAX,
        notional(price, quantity) <= 0xFFFF_FFFF_FFFF_FFFF * quantity,
{
    assert((price as nat) * (quantity as nat) <= 0xFFFF_FFFF_FFFF_FFFFnat * (quantity as nat))
        by (nonlinear_arith)
        requires
            price <= 0xFFFF_FFFF_FFFF_FFFFnat,
    ;
    assert(0xFFFF_FFFF_FFFF_FFFFnat * (quantity as nat) <= 0xFFFF_FFFF_FFFF_FFFFnat
        * 0xFFFF_FFFF_FFFF_FFFFnat) by (nonlinear_arith)
        requires
            quantity <= 0xFFFF_FFFF_FFFF_FFFFnat,
    ;
}

/// Computes the exact notional value of a fill.
pub fn notional_of(price: u64, quantity: u64) -> (r: u128)
    ensures
        r == notional(price, quantity),
{
    proof {
        lemma_notional_bound(price, quantity);
    }
    (price as u128) * (quantity as u128)
}

/// Integer average of `total` over `units`, zero when `units` is zero.
pub fn average_of(total: u128, units: u128) -> (r: u128)
    ensures
        r == average_spec(total as nat, units as nat),
{
    if units == 0 {
        0
    } else {
        total / units
    }
}

/// Relative move from `base` to `current` in parts per million.
pub fn change_ratio(base: u64, current: u64) -> (r: i128)
    ensures
        r == change_ratio_spec(base as nat, current as nat),
{
    if base == 0 {
        0
    } else if current >= base {
        let diff: u128 = (current - base) as u128;
        let scaled: u128 = diff * 1_000_000;
        let q: u128 = scaled / (base as u128);
        q as i128
    } else {
        let diff: u128 = (base - current) as u128;
        let scaled: u128 = diff * 1_000_000;
        let q: u128 = scaled / (base as u128);
        -(q as i128)
    }
}

/// Largest magnitude of a signed amount whose ratio to a base can be
/// computed: two to the power 102.
pub const RATIO_LIMIT: u128 = 0x40_0000_0000_0000_0000_0000_0000;

/// `value` relative to `base` in parts per million, rounded toward zero;
/// zero when `base` is zero.
pub open spec fn ratio_spec(value: int, base: nat) -> int {
    if base == 0 {
        0
    } else if value >= 0 {
        (value * 1_000_000) / (base as int)
    } else {
        -(((-value) * 1_000_000) / (base as int))
    }
}

/// `value` relative to `base` in parts per million.
pub fn ratio_of(value: i128, base: u128) -> (r: i128)
    requires
        -RATIO_LIMIT <= value <= RATIO_LIMIT,
    ensures
        r == ratio_spec(value as int, base as nat),
{
    if base == 0 {
        0
    } else if value >= 0 {
        let scaled: u128 = (value as u128) * 1_000_000;
        (scaled / base) as i128
    } else {
        let scaled: u128 = ((-value) as u128) * 1_000_000;
        -((scaled / base) as i128)
    }
}

} // verus!
