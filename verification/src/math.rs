//! Integer helpers shared by the fee and insurance rules.
use vstd::prelude::*;

use vstd::arithmetic::div_mod::{lemma_div_is_ordered, lemma_hoist_over_denominator};

verus! {

/// `a * b` for non-negative `a` and `b`, saturated at `i128::MAX`.
pub open spec fn saturating_product(a: int, b: int) -> int {
    if a * b > i128::MAX {
        i128::MAX as int
    } else {
        a * b
    }
}

/// `a * b` for non-negative `a` and `b`, saturated at `i128::MAX`.
pub fn saturating_mul_nonneg(a: i128, b: i128) -> (r: i128)
    requires
        a >= 0,
        b >= 0,
    ensures
        r == saturating_product(a as int, b as int),
        r >= 0,
{
    if b == 0 {
        assert(a * b == 0) by (nonlinear_arith)
            requires
                b == 0,
        ;
        0
    } else if a > i128::MAX / b {
        assert(a * b > i128::MAX) by (nonlinear_arith)
            requires
                b > 0,
                a > i128::MAX / b,
        ;
        i128::MAX
    } else {
        assert(0 <= a * b <= i128::MAX) by (nonlinear_arith)
            requires
                b > 0,
                a >= 0,
                a <= i128::MAX / b,
        ;
        a * b
    }
}

/// `value` less `bps` basis points of it, the deduction rounded down.
pub open spec fn discounted(value: int, bps: int) -> int {
    value - value * bps / 10_000
}

/// `value` less `bps` basis points of it, the deduction rounded down
/// (`value` non-negative, `bps` at most 10 000).
pub fn apply_discount(value: i128, bps: i128) -> (r: i128)
    requires
        value >= 0,
        0 <= bps <= 10_000,
    ensures
        r == discounted(value as int, bps as int),
        0 <= r <= value,
{
    assert(0 <= value * bps <= value * 10_000) by (nonlinear_arith)
        requires
            value >= 0,
            0 <= bps <= 10_000,
    ;
    assert(0 <= (value * bps) / 10_000 <= value) by (nonlinear_arith)
        requires
            value >= 0,
            0 <= value * bps <= value * 10_000,
    ;
    if value <= i128::MAX / 10_000 {
        assert(value * bps <= i128::MAX) by (nonlinear_arith)
            requires
                0 <= value <= i128::MAX / 10_000,
                0 <= bps <= 10_000,
        ;
        value - value * bps / 10_000
    } else {
        // value = q * 10_000 + rem; value * bps / 10_000 = q * bps + rem * bps / 10_000
        let q = value / 10_000;
        let rem = value % 10_000;
        assert(value * bps / 10_000 == q * bps + rem * bps / 10_000) by (nonlinear_arith)
            requires
                value == q * 10_000 + rem,
                0 <= rem < 10_000,
                0 <= bps <= 10_000,
                q >= 0,
        ;
        assert(0 <= q * bps <= value) by (nonlinear_arith)
            requires
                value == q * 10_000 + rem,
                0 <= rem,
                0 <= bps <= 10_000,
                q >= 0,
        ;
        assert(0 <= rem * bps <= 100_000_000) by (nonlinear_arith)
            requires
                0 <= rem < 10_000,
                0 <= bps <= 10_000,
        ;
        value - (q * bps + rem * bps / 10_000)
    }
}

/// A discount leaves between nothing and all of a non-negative value.
pub proof fn lemma_discounted_bounds(v: int, bps: int)
    requires
        v >= 0,
        0 <= bps <= 10_000,
    ensures
        0 <= discounted(v, bps) <= v,
{
    assert(0 <= v * bps <= v * 10_000) by (nonlinear_arith)
        requires
            v >= 0,
            0 <= bps <= 10_000,
    ;
    lemma_div_is_ordered(0, v * bps, 10_000);
    lemma_div_is_ordered(v * bps, v * 10_000, 10_000);
    assert(v * 10_000 / 10_000 == v) by (nonlinear_arith);
}

/// A larger discount never leaves more.
pub proof fn lemma_discounted_antitone_in_bps(v: int, lower: int, higher: int)
    requires
        v >= 0,
        0 <= lower <= higher,
    ensures
        discounted(v, higher) <= discounted(v, lower),
{
    assert(v * lower <= v * higher) by (nonlinear_arith)
        requires
            v >= 0,
            lower <= higher,
    ;
    lemma_div_is_ordered(v * lower, v * higher, 10_000);
}

/// Discounting a larger value by the same rate never leaves less.
pub proof fn lemma_discounted_monotone_in_value(smaller: int, larger: int, bps: int)
    requires
        0 <= smaller <= larger,
        0 <= bps <= 10_000,
    ensures
        discounted(smaller, bps) <= discounted(larger, bps),
{
    let k = larger - smaller;
    assert(larger * bps == smaller * bps + k * bps) by (nonlinear_arith)
        requires
            k == larger - smaller,
    ;
    assert(k * bps <= k * 10_000) by (nonlinear_arith)
        requires
            k >= 0,
            bps <= 10_000,
    ;
    lemma_div_is_ordered(smaller * bps + k * bps, smaller * bps + k * 10_000, 10_000);
    lemma_hoist_over_denominator(smaller * bps, k, 10_000);
}

} // verus!
