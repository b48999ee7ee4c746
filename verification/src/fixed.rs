//! Fixed-point amounts and the arithmetic facts the simulation rests on.
//!
//! Every resource quantity, rate, fraction and multiplier in the simulation
//! is a non-negative integer counted in millionths of a unit: `SCALE` stands
//! for 1.0. Ledger stock alone may dip below zero and is held as `i128`.
//! The named bounds below are the representation's capacity limits; entity
//! configuration is validated against them when components are attached, so
//! that every product and sum the tick pipeline forms stays inside `u128`
//! and `i128`.

use vstd::prelude::*;
use vstd::arithmetic::div_mod::lemma_div_is_ordered;
use vstd::arithmetic::div_mod::lemma_div_pos_is_pos;
use vstd::arithmetic::div_mod::lemma_div_nonincreasing;
use vstd::arithmetic::div_mod::lemma_fundamental_div_mod;
use vstd::arithmetic::div_mod::lemma_mod_bound;
use vstd::arithmetic::mul::lemma_mul_inequality;
use vstd::arithmetic::mul::lemma_mul_nonnegative;

verus! {

/// One whole unit of any fixed-point quantity.
pub const SCALE: u128 = 1_000_000;

/// Largest configurable amount: one hundred million whole units.
/// Applies to costs, build times, rates, yields, capacities and stock.
pub const AMT_MAX: u128 = 100_000_000_000_000;

/// Smallest accepted consumption multiplier: one hundredth of a unit.
pub const MULT_MIN: u128 = 10_000;

/// Largest accepted consumption multiplier or efficiency: one hundred units.
pub const MULT_MAX: u128 = 100_000_000;

/// A build amount (`build_rate / build_time`, the fraction of a target one
/// builder works off per tick at full allocation) saturates at five hundred
/// whole targets per tick. The limit exists so that one edge's request,
/// `build_amount * total * multiplier`, and the per-tick request and
/// consumption totals summed over every possible entity slot still fit in
/// the aggregation arithmetic: `u64::MAX * (AMT_MAX + REQ_MAX)` must stay
/// below `i128::MAX`. Below the limit the quotient is recorded exactly.
pub const BUILD_AMOUNT_CAP: u128 = 500_000_000;

/// Largest per-tick resource request a single construction edge can state:
/// `BUILD_AMOUNT_CAP * AMT_MAX / SCALE * MULT_MAX / SCALE`.
pub const REQ_MAX: u128 = 5_000_000_000_000_000_000;

/// Bound on a consumer's per-tick accumulator fields: an attached value of
/// at most `AMT_MAX` plus one edge's request of at most `REQ_MAX`.
pub const CONS_BOUND: u128 = AMT_MAX + REQ_MAX;

/// A producer's lifetime totals saturate here rather than overflow.
pub const PRODUCER_TOTAL_CAP: u128 = 1_000_000_000_000_000_000_000_000_000_000_000;

/// Bound on any per-tick total over all entities: one accumulator bound for
/// each of at most `u64::MAX` entity slots.
pub const SUM_MAX: u128 = 18_446_744_073_709_551_615 * CONS_BOUND;

/// Bound on one tick's production total over all entities.
pub const YIELD_SUM_MAX: u128 = 18_446_744_073_709_551_615 * AMT_MAX;

/// Ledger stock saturates at this floor rather than overflow `i128`.
pub const STOCK_FLOOR: i128 = -1_000_000_000_000_000_000_000_000_000_000_000;

/// Largest value ledger stock can reach mid-tick: a full store topped up by
/// one tick's production.
pub const STOCK_CEIL: i128 = 2_000_000_000_000_000_000_000_000_000_000_000;

/// A throttle ratio held exactly as a pair, `num / den`, so that settlement
/// arithmetic loses nothing to rounding that the stated formulas do not.
#[derive(Clone, Copy, PartialEq, Eq, Structural, Debug)]
pub struct Ratio {
    pub num: u128,
    pub den: u128,
}

/// A well-formed throttle ratio lies in [0, 1].
pub open spec fn ratio_wf(r: Ratio) -> bool {
    1 <= r.den <= SUM_MAX && r.num <= r.den
}

/// The ratio standing for exactly 1.
pub open spec fn ratio_one() -> Ratio {
    Ratio { num: 1, den: 1 }
}

/// Product bound: factors bounded above give a bounded product.
pub proof fn lemma_mul_le(a: int, b: int, x: int, y: int)
    requires
        0 <= a <= x,
        0 <= b <= y,
    ensures
        0 <= a * b <= x * y,
{
    lemma_mul_nonnegative(a, b);
    lemma_mul_inequality(a, x, b);
    lemma_mul_inequality(b, y, x);
}

/// Flooring division of a bounded non-negative value stays bounded.
pub proof fn lemma_div_le(a: int, b: int, d: int)
    requires
        0 <= a <= b,
        1 <= d,
    ensures
        0 <= a / d <= b / d,
        a / d <= a,
{
    lemma_div_pos_is_pos(a, d);
    lemma_div_is_ordered(a, b, d);
    lemma_div_nonincreasing(a, d);
}

/// Multiplying a floored quotient back by the divisor cannot exceed the
/// dividend: `(a / d) * d <= a`.
pub proof fn lemma_div_mul_le(a: int, d: int)
    requires
        0 <= a,
        1 <= d,
    ensures
        0 <= (a / d) * d <= a,
{
    lemma_fundamental_div_mod(a, d);
    lemma_mod_bound(a, d);
    lemma_div_pos_is_pos(a, d);
    lemma_mul_nonnegative(a / d, d);
    assert(a == d * (a / d) + (a % d));
    assert(d * (a / d) == (a / d) * d) by (nonlinear_arith);
}

/// The share formula respects its cap: `((a * s / den) * num) / m` scaled
/// back by `m` stays within `a * s` when `num <= den`.
pub proof fn lemma_share_le(a: int, s: int, num: int, den: int, m: int)
    requires
        0 <= a,
        0 <= s,
        0 <= num <= den,
        1 <= den,
        1 <= m,
    ensures
        0 <= (a * s / den) * num <= a * s,
        0 <= ((a * s / den) * num) / m <= a * s,
{
    let q = a * s / den;
    lemma_mul_nonnegative(a, s);
    lemma_div_mul_le(a * s, den);
    lemma_mul_nonnegative(q, num);
    lemma_mul_inequality(num, den, q);
    lemma_div_le(q * num, a * s, m);
    lemma_div_nonincreasing(q * num, m);
}

} // verus!
