//! How strongly a day of the heatmap is coloured.
use vstd::prelude::*;

verus! {

/// The first integer from which on double precision skips integers.
pub const DOUBLE_LIMIT: u64 = 0x20_0000_0000_0000;

/// The distance between neighbouring double precision values at an integer below 2^64: the least
/// power of two by which the integer has fewer than 54 bits.
pub open spec fn spacing(x: nat) -> nat
    decreases x,
{
    if x < DOUBLE_LIMIT {
        1
    } else {
        2 * spacing(x / 2)
    }
}

/// The double precision value of an integer: the nearest multiple of the spacing, the even one of
/// two that are equally near.
pub open spec fn double(x: nat) -> nat {
    let unit = spacing(x);
    let down = x / unit;
    let rest = x % unit;
    if 2 * rest > unit || (2 * rest == unit && down % 2 == 1) {
        (down + 1) * unit
    } else {
        down * unit
    }
}

/// The quarter that a share of the maximum reaches, from 1 to 4, and 0 for no value at all. The
/// share is the double precision quotient: it is at most a quarter, a half or three quarters where
/// the exact quotient exceeds that by no more than half the spacing of double precision there.
pub open spec fn intensity(value: nat, max: nat) -> int {
    let v = double(value) as int;
    let m = double(max) as int;
    if value == 0 || max == 0 {
        0
    } else if v * 0x80_0000_0000_0000 <= m * 0x20_0000_0000_0001 {
        1
    } else if v * 0x40_0000_0000_0000 <= m * 0x20_0000_0000_0001 {
        2
    } else if v * 0x40_0000_0000_0000 <= m * 0x30_0000_0000_0001 {
        3
    } else {
        4
    }
}

fn spacing_of(x: u64) -> (r: u64)
    ensures
        r == spacing(x as nat),
        1 <= r <= 0x1000,
        x < DOUBLE_LIMIT ==> r == 1,
        x >= DOUBLE_LIMIT ==> r * 0x10_0000_0000_0000 <= x,
    decreases x,
{
    if x < DOUBLE_LIMIT {
        1
    } else {
        2 * spacing_of(x / 2)
    }
}

fn double_of(x: u64) -> (r: u128)
    ensures
        r == double(x as nat),
        r <= x + 0x1000,
{
    let unit: u64 = spacing_of(x);
    let down: u64 = x / unit;
    let rest: u64 = x % unit;
    assert(down * unit + rest == x && 0 <= down * unit) by (nonlinear_arith)
        requires
            unit > 0,
            down == x / unit,
            rest == x % unit,
    ;
    assert((down + 1) * unit == down * unit + unit) by (nonlinear_arith);
    if 2 * rest > unit || (2 * rest == unit && down % 2 == 1) {
        down as u128 * unit as u128 + unit as u128
    } else {
        down as u128 * unit as u128
    }
}

/// The quarter of the maximum that a value reaches, from 1 to 4, and 0 for no value at all.
pub fn heat_intensity(value: u64, max: u64) -> (r: u8)
    ensures
        r == intensity(value as nat, max as nat),
        r <= 4,
{
    if value == 0 || max == 0 {
        return 0;
    }
    let v: u128 = double_of(value);
    let m: u128 = double_of(max);
    if v * 0x80_0000_0000_0000 <= m * 0x20_0000_0000_0001 {
        1
    } else if v * 0x40_0000_0000_0000 <= m * 0x20_0000_0000_0001 {
        2
    } else if v * 0x40_0000_0000_0000 <= m * 0x30_0000_0000_0001 {
        3
    } else {
        4
    }
}

/// Law: a day has no colour exactly where it or the maximum is zero.
pub proof fn law_blank_iff_zero(value: nat, max: nat)
    ensures
        intensity(value, max) == 0 <==> value == 0 || max == 0,
        0 <= intensity(value, max) <= 4,
{
}

/// Law: the day with the maximum has the strongest colour.
pub proof fn law_maximum_is_strongest(max: nat)
    requires
        max > 0,
    ensures
        intensity(max, max) == 4,
{
    lemma_double_positive(max);
}

/// Law: below 2^52 tokens, the colour is the quarter of the maximum that the value reaches, rounded
/// up and at most the fourth.
pub proof fn law_exact_quarters(value: nat, max: nat, quarter: int)
    requires
        0 < value < 0x20_0000_0000_0000,
        0 < max < 0x10_0000_0000_0000,
        1 <= quarter <= 3,
    ensures
        intensity(value, max) <= quarter <==> 4 * value <= quarter * max,
{
    lemma_double_small(value);
    lemma_double_small(max);
    if quarter == 1 {
        assert(quarter * max == max);
    } else if quarter == 2 {
        assert(quarter * max == 2 * max);
    } else {
        assert(quarter * max == 3 * max);
    }
}

/// Law: a greater value has no weaker colour.
pub proof fn law_monotone(less: nat, more: nat, max: nat)
    requires
        less <= more,
    ensures
        intensity(less, max) <= intensity(more, max),
{
    lemma_double_monotone(less, more);
}

proof fn lemma_spacing(x: nat)
    ensures
        spacing(x) >= 1,
        x < DOUBLE_LIMIT * spacing(x),
        spacing(x) > 1 ==> 0x10_0000_0000_0000 * spacing(x) <= x,
    decreases x,
{
    if x >= DOUBLE_LIMIT {
        lemma_spacing(x / 2);
    }
}

proof fn lemma_double_bounds(x: nat)
    ensures
        double(x) <= DOUBLE_LIMIT * spacing(x),
        spacing(x) > 1 ==> 0x10_0000_0000_0000 * spacing(x) <= double(x),
{
    lemma_spacing(x);
    let unit = spacing(x) as int;
    let down = x as int / unit;
    assert(down < DOUBLE_LIMIT) by (nonlinear_arith)
        requires
            unit >= 1,
            down == x as int / unit,
            x < DOUBLE_LIMIT * unit,
    ;
    assert((down + 1) * unit <= DOUBLE_LIMIT * unit) by (nonlinear_arith)
        requires
            unit >= 1,
            down + 1 <= DOUBLE_LIMIT,
    ;
    assert(down * unit <= (down + 1) * unit) by (nonlinear_arith)
        requires
            unit >= 1,
    ;
    if unit > 1 {
        assert(down >= 0x10_0000_0000_0000) by (nonlinear_arith)
            requires
                unit >= 1,
                down == x as int / unit,
                0x10_0000_0000_0000 * unit <= x,
        ;
        assert(down * unit >= 0x10_0000_0000_0000 * unit) by (nonlinear_arith)
            requires
                unit >= 1,
                down >= 0x10_0000_0000_0000,
        ;
    }
}

proof fn lemma_double_small(x: nat)
    requires
        x < DOUBLE_LIMIT,
    ensures
        double(x) == x,
{
    let unit = spacing(x);
    assert(unit == 1);
    assert(x / unit == x && x % unit == 0 && x * unit == x) by (nonlinear_arith)
        requires
            unit == 1,
    ;
}

proof fn lemma_double_positive(x: nat)
    requires
        x > 0,
    ensures
        double(x) > 0,
{
    if x >= DOUBLE_LIMIT {
        lemma_double_bounds(x);
        lemma_spacing(x / 2);
    } else {
        lemma_double_small(x);
    }
}

/// A greater integer has no smaller spacing, and a greater spacing is at least twice as great.
proof fn lemma_spacing_monotone(a: nat, b: nat)
    requires
        a <= b,
    ensures
        spacing(a) == spacing(b) || 2 * spacing(a) <= spacing(b),
    decreases b,
{
    if b >= DOUBLE_LIMIT {
        lemma_spacing(b / 2);
        if a >= DOUBLE_LIMIT {
            lemma_spacing_monotone(a / 2, b / 2);
        }
    }
}

proof fn lemma_double_monotone(a: nat, b: nat)
    requires
        a <= b,
    ensures
        double(a) <= double(b),
{
    lemma_spacing(a);
    lemma_spacing(b);
    lemma_spacing_monotone(a, b);
    lemma_double_bounds(a);
    lemma_double_bounds(b);
    let unit = spacing(a);
    if spacing(b) == unit {
        let da = a / unit;
        let db = b / unit;
        assert(da <= db) by (nonlinear_arith)
            requires
                unit >= 1,
                a <= b,
                da == a / unit,
                db == b / unit,
        ;
        if da == db {
            assert(a == da * unit + a % unit && b == db * unit + b % unit) by (nonlinear_arith)
                requires
                    unit >= 1,
                    da == a / unit,
                    db == b / unit,
            ;
            assert(a % unit <= b % unit);
            assert(da * unit <= (da + 1) * unit) by (nonlinear_arith);
        } else {
            assert((da + 1) * unit <= db * unit) by (nonlinear_arith)
                requires
                    da + 1 <= db,
            ;
            assert(da * unit <= (da + 1) * unit) by (nonlinear_arith);
            assert(db * unit <= (db + 1) * unit) by (nonlinear_arith);
        }
    }
}

/// Law: a greater maximum gives no stronger colour.
pub proof fn law_greater_maximum(value: nat, less: nat, more: nat)
    requires
        0 < less <= more,
    ensures
        intensity(value, more) <= intensity(value, less),
{
    lemma_double_monotone(less, more);
}

} // verus!
