//! The apparent-temperature (heat index) engine.
//!
//! The formula works on readings scaled by ten thousand and is evaluated in
//! exact integer arithmetic: the Steadman estimate and the Rothfusz
//! regression are rational in the inputs and are carried at explicit powers
//! of ten, and the low-humidity correction's square root is taken as an
//! integer square root at twenty-six extra decimal digits. The result is
//! the index in tenths of a degree Fahrenheit, rounded half-to-even.

use vstd::prelude::*;

use crate::numfmt::round_mag;

verus! {

/// The absolute value of a mathematical integer.
pub open spec fn iabs(x: int) -> int {
    if x < 0 {
        -x
    } else {
        x
    }
}

/// The integer square root: the largest `r` with `r * r <= n`.
pub open spec fn sqrt_floor(n: nat) -> nat
    decreases n,
{
    if n == 0 {
        0
    } else {
        let s = sqrt_floor((n - 1) as nat);
        if (s + 1) * (s + 1) <= n {
            s + 1
        } else {
            s
        }
    }
}

pub proof fn lemma_sqrt_floor(n: nat)
    ensures
        sqrt_floor(n) * sqrt_floor(n) <= n,
        n < (sqrt_floor(n) + 1) * (sqrt_floor(n) + 1),
    decreases n,
{
    if n == 0 {
        let s = sqrt_floor(n);
        assert(s == 0);
        assert(s * s <= n && n < (s + 1) * (s + 1)) by (nonlinear_arith)
            requires
                n == 0,
                s == 0,
        ;
    } else {
        lemma_sqrt_floor((n - 1) as nat);
        let s = sqrt_floor((n - 1) as nat);
        if (s + 1) * (s + 1) <= n {
            assert(sqrt_floor(n) == s + 1);
            assert(n < ((s + 1) + 1) * ((s + 1) + 1)) by (nonlinear_arith)
                requires
                    n <= (n - 1) + 1,
                    (n - 1) < (s + 1) * (s + 1),
                    s >= 0,
            ;
        } else {
            assert(sqrt_floor(n) == s);
        }
    }
}

/// Two integers that both bracket `n` between their square and the next
/// square are the same: the integer square root is unique.
pub proof fn lemma_sqrt_floor_unique(n: nat, r: nat)
    requires
        r * r <= n,
        n < (r + 1) * (r + 1),
    ensures
        r == sqrt_floor(n),
{
    lemma_sqrt_floor(n);
    let s = sqrt_floor(n);
    if r < s {
        assert((r + 1) * (r + 1) <= s * s) by (nonlinear_arith)
            requires
                0 <= r,
                r + 1 <= s,
        ;
    }
    if s < r {
        assert((s + 1) * (s + 1) <= r * r) by (nonlinear_arith)
            requires
                0 <= s,
                s + 1 <= r,
        ;
    }
}

/// The integer square root of a 128-bit magnitude, by bisection.
pub fn isqrt(n: u128) -> (r: u128)
    ensures
        r == sqrt_floor(n as nat),
        r * r <= n < (r + 1) * (r + 1),
{
    let mut lo: u128 = 0;
    let mut hi: u128 = 0xffff_ffff_ffff_ffff;
    proof {
        assert((hi + 1) * (hi + 1) > n) by (nonlinear_arith)
            requires
                hi == 0xffff_ffff_ffff_ffff,
                n < 0x1_0000_0000_0000_0000_0000_0000_0000_0000,
        ;
    }
    while lo < hi
        invariant
            lo <= hi <= 0xffff_ffff_ffff_ffff,
            lo * lo <= n,
            (hi + 1) * (hi + 1) > n,
        decreases hi - lo,
    {
        let mid = lo + (hi - lo + 1) / 2;
        proof {
            assert(mid * mid <= 0xffff_ffff_ffff_ffff * 0xffff_ffff_ffff_ffff)
                by (nonlinear_arith)
                requires
                    0 <= mid <= 0xffff_ffff_ffff_ffff,
            ;
        }
        if mid * mid <= n {
            lo = mid;
        } else {
            hi = mid - 1;
        }
    }
    proof {
        lemma_sqrt_floor_unique(n as nat, lo as nat);
    }
    lo
}

/// Half-to-even rounding of the ratio `num / den`, applied to the
/// magnitude so that negative values round symmetrically.
pub open spec fn round_signed(num: int, den: int) -> int {
    if num >= 0 {
        round_mag(num, den, false)
    } else {
        -round_mag(-num, den, false)
    }
}

/// Executable form of [`round_signed`] for 128-bit intermediates.
pub fn round_signed_i128(num: i128, den: i128) -> (r: i128)
    requires
        0 < den <= 0x10_0000_0000_0000_0000_0000_0000,
        -0x4000_0000_0000_0000_0000_0000_0000_0000 <= num
            <= 0x4000_0000_0000_0000_0000_0000_0000_0000,
    ensures
        r == round_signed(num as int, den as int),
        iabs(r as int) <= iabs(num as int) / (den as int) + 1,
{
    let neg = num < 0;
    let mag = if neg {
        -num
    } else {
        num
    };
    let q = mag / den;
    let rem = mag % den;
    let up = if 2 * rem > den {
        true
    } else if 2 * rem < den {
        false
    } else {
        q % 2 == 1
    };
    let rounded = if up {
        q + 1
    } else {
        q
    };
    if neg {
        -rounded
    } else {
        rounded
    }
}

} // verus!

verus! {

/// The Steadman estimate numerator at scale ten million:
/// `0.5 * (T + 61 + (T - 68) * 1.2 + RH * 0.094)` equals this over `2 * 10^7`.
pub open spec fn steadman_x7(t4: int, r4: int) -> int {
    t4 * 1000 + 610000000 + (t4 - 680000) * 1200 + r4 * 94
}

/// The Rothfusz regression numerator at scale ten to the twenty-fourth:
/// `-42.379 + 2.04901523 T + 10.14333127 RH - 0.22475541 T RH
///  - 0.00683783 T^2 - 0.05481717 RH^2 + 0.00122874 T^2 RH
///  + 0.00085282 T RH^2 - 0.00000199 T^2 RH^2`
/// equals this over `10^24`, for `T = t4 / 10^4` and `RH = r4 / 10^4`.
pub open spec fn rothfusz_24(t4: int, r4: int) -> int {
    let tt = t4 * t4;
    let rr = r4 * r4;
    let tr = t4 * r4;
    let ttr = tt * r4;
    let trr = t4 * rr;
    let ttrr = tt * rr;
    -42379000000000000000000000 + 204901523 * t4 * 1000000000000 + 1014333127 * r4
        * 1000000000000 - 22475541 * tr * 100000000 - 683783 * tt * 100000000 - 5481717 * rr
        * 100000000 + 122874 * ttr * 10000 + 85282 * trr * 10000 - 199 * ttrr
}

/// The square root in the low-humidity correction,
/// `sqrt((17 - |T - 95|) / 17)`, as an integer root carried at
/// thirteen extra decimal digits of the scaled radicand:
/// `low_band_root(t4) / (17 * 10^4 * 10^13)` approximates the root.
pub open spec fn low_band_root(t4: int) -> int {
    sqrt_floor(((170000 - iabs(t4 - 950000)) * 170000 * 100000000000000000000000000) as nat) as int
}

/// The apparent temperature in tenths of a degree Fahrenheit, for a
/// temperature and relative humidity scaled by ten thousand.
///
/// Below 80 degrees the temperature passes through. Otherwise the Steadman
/// estimate applies when its average with the temperature stays below 80;
/// above that the Rothfusz regression applies, with the low-humidity
/// correction subtracted when `RH < 13` and `80 < T < 112`, and the
/// high-humidity correction added when `RH > 85` and `80 < T < 87`.
pub open spec fn spec_heat_index_deci(t4: int, r4: int) -> int {
    if t4 < 800000 {
        round_signed(t4, 1000)
    } else {
        let x7 = steadman_x7(t4, r4);
        if 2000 * t4 + x7 < 3200000000 {
            round_signed(x7, 2000000)
        } else {
            let r24 = rothfusz_24(t4, r4);
            if r4 < 130000 && 800000 < t4 && t4 < 1120000 {
                round_signed(
                    68 * r24 - (130000 - r4) * low_band_root(t4) * 1000,
                    6800000000000000000000000,
                )
            } else if r4 > 850000 && 800000 < t4 && t4 < 870000 {
                round_signed(
                    r24 + (r4 - 850000) * (870000 - t4) * 200000000000000,
                    100000000000000000000000,
                )
            } else {
                round_signed(r24, 100000000000000000000000)
            }
        }
    }
}

/// Computes [`spec_heat_index_deci`] exactly, in 128-bit arithmetic.
pub fn heat_index_deci(t4: i64, r4: i64) -> (r: i64)
    requires
        -100000000 <= t4 <= 100000000,
        -100000000 <= r4 <= 100000000,
    ensures
        r == spec_heat_index_deci(t4 as int, r4 as int),
        -1000000000000 <= r <= 1000000000000,
{
    let t: i128 = t4 as i128;
    let rh: i128 = r4 as i128;
    if t < 800000 {
        let d = round_signed_i128(t, 1000);
        proof {
            vstd::arithmetic::div_mod::lemma_div_is_ordered(iabs(t as int), 100000000, 1000);
        }
        return d as i64;
    }
    let x7 = t * 1000 + 610000000 + (t - 680000) * 1200 + rh * 94;
    if 2000 * t + x7 < 3200000000 {
        let d = round_signed_i128(x7, 2000000);
        proof {
            vstd::arithmetic::div_mod::lemma_div_is_ordered(
                iabs(x7 as int),
                400000000000,
                2000000,
            );
        }
        return d as i64;
    }
    proof {
        assert(0 <= t * t <= 10000000000000000 && 0 <= rh * rh <= 10000000000000000
            && -10000000000000000 <= t * rh <= 10000000000000000) by (nonlinear_arith)
            requires
                -100000000 <= t <= 100000000,
                -100000000 <= rh <= 100000000,
        ;
    }
    let tt = t * t;
    let rr = rh * rh;
    let tr = t * rh;
    proof {
        assert(-1000000000000000000000000 <= tt * rh <= 1000000000000000000000000
            && -1000000000000000000000000 <= t * rr <= 1000000000000000000000000 && 0 <= tt * rr
            <= 100000000000000000000000000000000) by (nonlinear_arith)
            requires
                -100000000 <= t <= 100000000,
                -100000000 <= rh <= 100000000,
                0 <= tt <= 10000000000000000,
                0 <= rr <= 10000000000000000,
                tt == t * t,
                rr == rh * rh,
        ;
    }
    let ttr = tt * rh;
    let trr = t * rr;
    let ttrr = tt * rr;
    let r24 = -42379000000000000000000000 + 204901523 * t * 1000000000000 + 1014333127 * rh
        * 1000000000000 - 22475541 * tr * 100000000 - 683783 * tt * 100000000 - 5481717 * rr
        * 100000000 + 122874 * ttr * 10000 + 85282 * trr * 10000 - 199 * ttrr;
    if rh < 130000 && 800000 < t && t < 1120000 {
        let dd = 170000 - iabs_i128(t - 950000);
        let radicand = dd * 170000 * 100000000000000000000000000;
        let q = isqrt(radicand as u128);
        proof {
            assert((q as int) * (q as int) <= radicand as int);
            assert(q <= 2000000000000000000) by (nonlinear_arith)
                requires
                    (q as int) * (q as int) <= 2890000000000000000000000000000000000,
                    q >= 0,
            ;
        }
        let qi = q as i128;
        proof {
            assert(-400000000000000000000000000000 <= (130000 - rh) * qi
                <= 400000000000000000000000000000) by (nonlinear_arith)
                requires
                    0 <= 130000 - rh <= 100130000,
                    0 <= qi <= 2000000000000000000,
            ;
        }
        let num = 68 * r24 - (130000 - rh) * qi * 1000;
        let d = round_signed_i128(num, 6800000000000000000000000);
        proof {
            vstd::arithmetic::div_mod::lemma_div_is_ordered(
                iabs(num as int),
                3000000000000000000000000000000000000,
                6800000000000000000000000,
            );
        }
        return d as i64;
    }
    if rh > 850000 && 800000 < t && t < 870000 {
        proof {
            assert(0 <= (rh - 850000) * (870000 - t) <= 10000000000000) by (nonlinear_arith)
                requires
                    0 <= rh - 850000 <= 100000000,
                    0 <= 870000 - t <= 70000,
            ;
        }
        let num = r24 + (rh - 850000) * (870000 - t) * 200000000000000;
        let d = round_signed_i128(num, 100000000000000000000000);
        proof {
            vstd::arithmetic::div_mod::lemma_div_is_ordered(
                iabs(num as int),
                30000000000000000000000000000000000,
                100000000000000000000000,
            );
        }
        return d as i64;
    }
    let d = round_signed_i128(r24, 100000000000000000000000);
    proof {
        vstd::arithmetic::div_mod::lemma_div_is_ordered(
            iabs(r24 as int),
            30000000000000000000000000000000000,
            100000000000000000000000,
        );
    }
    d as i64
}

/// The absolute value of a 128-bit intermediate.
fn iabs_i128(x: i128) -> (r: i128)
    requires
        x > -0x8000_0000_0000_0000_0000_0000_0000_0000,
    ensures
        r == iabs(x as int),
{
    if x < 0 {
        -x
    } else {
        x
    }
}

} // verus!
