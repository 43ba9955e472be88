//! Brightness devices and the controller that moves them.

pub mod backlight;
pub mod controller;
pub mod ddcutil;

use vstd::prelude::*;

verus! {

/// A brightness in percent of the highest one, rounded to the nearest; a device without any range
/// counts as one with a range of one.
pub open spec fn percent_of(value: u64, max: u64) -> int {
    let range = if max == 0 {
        1
    } else {
        max as int
    };
    let percent = (value * 100 + range / 2) / range;
    if percent > 100 {
        100
    } else {
        percent
    }
}

/// A brightness in percent of the highest one.
pub fn percent(value: u64, max: u64) -> (r: u8)
    ensures
        r == percent_of(value, max),
{
    let range: u128 = if max == 0 {
        1
    } else {
        max as u128
    };
    let percent: u128 = (value as u128 * 100 + range / 2) / range;
    if percent > 100 {
        100
    } else {
        percent as u8
    }
}

/// The brightness at a percentage of the highest one, rounded to the nearest, but not below the
/// lowest one.
pub open spec fn value_of(percent: u8, min: u64, max: u64) -> int {
    let value = (max * percent + 50) / 100;
    let highest = if max < min {
        min
    } else {
        max
    };
    if value < min {
        min as int
    } else if value > highest {
        highest as int
    } else {
        value
    }
}

/// The brightness at a percentage of the highest one.
pub fn value_at_percent(percent: u8, min: u64, max: u64) -> (r: u64)
    ensures
        r == value_of(percent, min, max),
{
    assert(max * percent <= u64::MAX * u8::MAX) by (nonlinear_arith)
        requires
            max <= u64::MAX,
            percent <= u8::MAX,
    ;
    let value: u128 = (max as u128 * percent as u128 + 50) / 100;
    let highest = if max < min {
        min
    } else {
        max
    };
    if value < min as u128 {
        min
    } else if value > highest as u128 {
        highest
    } else {
        value as u64
    }
}

/// What a device is asked for lies in its range, whatever the percentage is.
pub proof fn value_stays_in_range(percent: u8, min: u64, max: u64)
    requires
        min <= max,
    ensures
        min <= value_of(percent, min, max) <= max,
        percent == 100 ==> value_of(percent, min, max) == max,
{
}

/// A brightness in percent is the nearest one: none is nearer to the brightness. No brightness is
/// nothing, and the highest one is all.
pub proof fn percent_is_rounded(value: u64, max: u64)
    ensures
        0 <= percent_of(value, max) <= 100,
        value <= max && max > 0 ==> -max <= 2 * (100 * value - percent_of(value, max) * max) <= max,
        value >= max && max > 0 ==> percent_of(value, max) == 100,
        value == 0 ==> percent_of(value, max) == 0,
{
    if max > 0 {
        let m = max as int;
        let a = value * 100 + m / 2;
        let q = a / m;
        vstd::arithmetic::div_mod::lemma_fundamental_div_mod(a, m);
        assert(m * q == q * m) by (nonlinear_arith);
        assert(q * m <= a < q * m + m);
        if value >= max {
            assert(q >= 100) by (nonlinear_arith)
                requires
                    100 * m <= a,
                    a < q * m + m,
                    m > 0,
            ;
        } else {
            assert(q <= 100) by (nonlinear_arith)
                requires
                    q * m <= a,
                    a < 101 * m,
                    m > 0,
            ;
        }
        assert(q >= 0) by (nonlinear_arith)
            requires
                a >= 0,
                a < q * m + m,
                m > 0,
        ;
        if value == 0 {
            assert(q <= 0) by (nonlinear_arith)
                requires
                    q * m <= a,
                    a < m,
                    m > 0,
            ;
        }
        assert(percent_of(value, max) == if q > 100 {
            100
        } else {
            q
        });
        if value == max {
            assert(percent_of(value, max) * m == 100 * m) by (nonlinear_arith)
                requires
                    percent_of(value, max) == 100,
            ;
        }
    } else {
        assert(value * 100 >= 0);
    }
}

/// A brighter output is not told to be darker.
pub proof fn percent_grows_with_brightness(value: u64, brighter: u64, max: u64)
    requires
        value <= brighter,
    ensures
        percent_of(value, max) <= percent_of(brighter, max),
{
    let m = if max == 0 {
        1
    } else {
        max as int
    };
    vstd::arithmetic::div_mod::lemma_div_is_ordered(
        value * 100 + m / 2,
        brighter * 100 + m / 2,
        m,
    );
}

/// The brightness at a percentage is the nearest one, within the range of the device.
pub proof fn value_is_rounded(percent: u8, min: u64, max: u64)
    requires
        min <= max,
    ensures
        min <= value_of(percent, min, max) <= max,
        percent >= 100 ==> value_of(percent, min, max) == max,
        percent == 0 ==> value_of(percent, min, max) == min,
        percent <= 100 && value_of(percent, min, max) != min ==> -50 <= 100 * value_of(
            percent,
            min,
            max,
        ) - percent * max <= 50,
        percent <= 100 && value_of(percent, min, max) == min ==> percent * max <= 100 * min + 50,
{
    let product = max * percent;
    assert(product == percent * max) by (nonlinear_arith)
        requires
            product == max * percent,
    ;
    assert(percent >= 100 ==> product >= max * 100) by (nonlinear_arith)
        requires
            product == max * percent,
            max >= 0,
    ;
    assert(percent <= 100 ==> product <= max * 100) by (nonlinear_arith)
        requires
            product == max * percent,
            max >= 0,
    ;
    assert(percent == 0 ==> product == 0) by (nonlinear_arith)
        requires
            product == max * percent,
    ;
}

/// What an output was set to is what it is told to have, where its device has a hundred levels or
/// more and the least of them is not reached.
pub proof fn what_is_set_is_told(percent: u8, min: u64, max: u64)
    requires
        percent <= 100,
        min <= max,
        max >= 100,
        value_of(percent, min, max) != min || min == 0,
    ensures
        percent_of(value_of(percent, min, max) as u64, max) == percent,
{
    value_is_rounded(percent, min, max);
    let v = value_of(percent, min, max);
    let m = max as int;
    let p = percent as int;
    let a = v * 100 + m / 2;
    let product = max * percent;
    assert(product == p * m) by (nonlinear_arith)
        requires
            product == max * percent,
            m == max,
            p == percent,
    ;
    assert(product >= 0) by (nonlinear_arith)
        requires
            product == p * m,
            p >= 0,
            m >= 0,
    ;
    if m == 100 {
        assert(product == 100 * p);
        assert(v == p);
    }
    assert(p * m <= a < p * m + m);
    assert(a / m == p) by (nonlinear_arith)
        requires
            p * m <= a,
            a < p * m + m,
            m > 0,
    ;
}

} // verus!
