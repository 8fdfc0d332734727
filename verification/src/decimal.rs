//! Fixed-point decimal readings.
//!
//! A raw field value such as `"29.92"` is parsed into a [`Decimal`]: a sign,
//! a magnitude scaled by ten thousand (four decimal digits are kept), and a
//! sticky flag recording whether nonzero digits beyond the fourth were
//! dropped. Payload formatting rounds half-to-even to the precision the
//! field table configures; the sticky flag keeps that rounding honest for
//! over-precise inputs, except that an apparent tie with dropped digits is
//! really above the midpoint and rounds up.

use vstd::prelude::*;

use crate::numfmt::{
    all_digits, dec_digits, digits_value, is_digit, lemma_digits_value_nonneg,
    lemma_digits_value_prefix, lemma_pow10_pos, lemma_pow10_values, padded_digits, pow10,
    pow10_u64, push_dec_digits, push_padded_digits, round_mag, round_mag_u64,
};

verus! {

/// One parsed decimal reading: `(-1 if neg)` times `m4 / 10^4`, where `sticky`
/// records that the raw text carried nonzero digits beyond the four kept.
#[derive(Clone, Copy, PartialEq, Eq, Structural, Debug)]
pub struct Decimal {
    pub neg: bool,
    pub m4: u64,
    pub sticky: bool,
}

/// The magnitude bound every parsed decimal satisfies: fewer than ten
/// integer digits, four fractional digits kept.
pub open spec fn dec_wf(d: Decimal) -> bool {
    d.m4 < 10000000000000
}

/// The reading's signed magnitude at scale ten thousand.
pub open spec fn dec_signed_m4(d: Decimal) -> int {
    if d.neg {
        -(d.m4 as int)
    } else {
        d.m4 as int
    }
}

/// Length of the sign prefix of a raw value: one byte for `+` or `-`.
pub open spec fn sign_len(s: Seq<u8>) -> int {
    if s.len() > 0 && (s[0] == 43 || s[0] == 45) {
        1
    } else {
        0
    }
}

/// The raw value with its sign prefix removed.
pub open spec fn dec_body(s: Seq<u8>) -> Seq<u8> {
    s.skip(sign_len(s))
}

/// Index of the first `.` in `b`, or `b.len()` when there is none.
pub open spec fn find_dot(b: Seq<u8>) -> int
    decreases b.len(),
{
    if b.len() == 0 {
        0
    } else if b[0] == 46 {
        0
    } else {
        1 + find_dot(b.skip(1))
    }
}

/// The digits before the decimal point.
pub open spec fn int_digits(s: Seq<u8>) -> Seq<u8> {
    dec_body(s).take(find_dot(dec_body(s)))
}

/// The digits after the decimal point (empty when there is no point).
pub open spec fn frac_digits(s: Seq<u8>) -> Seq<u8> {
    let b = dec_body(s);
    if find_dot(b) == b.len() {
        Seq::empty()
    } else {
        b.skip(find_dot(b) + 1)
    }
}

/// The grammar a raw decimal value must satisfy: an optional sign, digits
/// around at most one decimal point, at least one digit in all, and an
/// integer part below one billion (the crate's fixed-point capacity).
pub open spec fn dec_ok(s: Seq<u8>) -> bool {
    let ip = int_digits(s);
    let fp = frac_digits(s);
    all_digits(ip) && all_digits(fp) && ip.len() + fp.len() >= 1 && digits_value(ip) < pow10(9)
}

/// The first four fractional digits as a magnitude at scale ten thousand.
pub open spec fn frac4_value(f: Seq<u8>) -> int {
    if f.len() >= 4 {
        digits_value(f.take(4))
    } else {
        digits_value(f) * pow10((4 - f.len()) as nat)
    }
}

/// True when a nonzero fractional digit beyond the fourth is dropped.
pub open spec fn frac_sticky(f: Seq<u8>) -> bool {
    exists|j: int| 4 <= j < f.len() && f[j] != 48
}

/// The reading a well-formed raw value denotes.
pub open spec fn spec_decimal(s: Seq<u8>) -> Decimal {
    Decimal {
        neg: s.len() > 0 && s[0] == 45,
        m4: (digits_value(int_digits(s)) * 10000 + frac4_value(frac_digits(s))) as u64,
        sticky: frac_sticky(frac_digits(s)),
    }
}

pub proof fn lemma_find_dot(b: Seq<u8>)
    ensures
        0 <= find_dot(b) <= b.len(),
        forall|j: int| 0 <= j < find_dot(b) ==> b[j] != 46,
        find_dot(b) < b.len() ==> b[find_dot(b)] == 46,
    decreases b.len(),
{
    if b.len() > 0 && b[0] != 46 {
        lemma_find_dot(b.skip(1));
        assert(forall|j: int| 0 <= j < find_dot(b.skip(1)) ==> b.skip(1)[j] != 46 ==> b[j + 1]
            != 46);
        assert forall|j: int| 0 <= j < find_dot(b) implies b[j] != 46 by {
            if j > 0 {
                assert(b.skip(1)[j - 1] != 46);
            }
        }
    }
}

/// When no `.` stands before `k`, the first `.` is at `k` or later.
pub proof fn lemma_find_dot_at_least(b: Seq<u8>, k: int)
    requires
        0 <= k <= b.len(),
        forall|j: int| 0 <= j < k ==> b[j] != 46,
    ensures
        find_dot(b) >= k,
{
    lemma_find_dot(b);
    if find_dot(b) < k {
        assert(b[find_dot(b)] == 46);
    }
}

/// When `b[k]` is a `.` and none stands before it, the first `.` is at `k`.
pub proof fn lemma_find_dot_at(b: Seq<u8>, k: int)
    requires
        0 <= k < b.len(),
        b[k] == 46,
        forall|j: int| 0 <= j < k ==> b[j] != 46,
    ensures
        find_dot(b) == k,
{
    lemma_find_dot(b);
    lemma_find_dot_at_least(b, k);
    if find_dot(b) > k {
        assert(b[k] != 46);
    }
}

/// True exactly when `c` is the ASCII code of a decimal digit.
fn is_digit_b(c: u8) -> (r: bool)
    ensures
        r == is_digit(c),
{
    48 <= c && c <= 57
}

/// Returns the end of the run of digit bytes starting at `from`.
fn scan_digits(s: &[u8], from: usize) -> (end: usize)
    requires
        from <= s@.len(),
    ensures
        from <= end <= s@.len(),
        forall|j: int| from <= j < end ==> is_digit(#[trigger] s@[j]),
        end < s@.len() ==> !is_digit(s@[end as int]),
{
    let n = s.len();
    let mut i: usize = from;
    while i < n
        invariant
            from <= i <= n == s@.len(),
            forall|j: int| from <= j < i ==> is_digit(#[trigger] s@[j]),
        decreases n - i,
    {
        if !is_digit_b(s[i]) {
            return i;
        }
        i = i + 1;
    }
    i
}

/// Parses a raw field value as a fixed-precision decimal number.
///
/// Accepts an optional sign, digits, and at most one decimal point with at
/// least one digit overall; the integer part must stay below one billion.
/// Exponents and non-finite spellings are rejected.
#[verifier::rlimit(60)]
pub fn parse_decimal(s: &[u8]) -> (r: Option<Decimal>)
    ensures
        dec_ok(s@) ==> r == Some(spec_decimal(s@)),
        !dec_ok(s@) ==> r is None,
        r matches Some(d) ==> dec_wf(d),
{
    let n = s.len();
    let mut i: usize = 0;
    let mut neg = false;
    if n > 0 && (s[0] == 43 || s[0] == 45) {
        neg = s[0] == 45;
        i = 1;
    }
    let sl: usize = i;
    proof {
        assert(sign_len(s@) == sl as int);
        assert(neg == (s@.len() > 0 && s@[0] == 45));
    }
    let ghost body = dec_body(s@);
    proof {
        assert(body =~= s@.subrange(sl as int, n as int));
    }

    let int_end = scan_digits(s, sl);
    let ghost d1 = int_end - sl;
    proof {
        // No digit is a dot, so the first dot of the body is at `d1` or later.
        assert(forall|j: int| 0 <= j < d1 ==> body[j] == s@[sl + j] && is_digit(s@[sl + j]));
        lemma_find_dot_at_least(body, d1);
    }

    // Accumulate the integer part, stopping as soon as it is too large.
    let mut ival: u64 = 0;
    while i < int_end
        invariant
            sl <= i <= int_end <= n == s@.len(),
            sl + d1 == int_end,
            body =~= s@.subrange(sl as int, n as int),
            body == dec_body(s@),
            forall|j: int| sl <= j < int_end ==> is_digit(#[trigger] s@[j]),
            find_dot(body) >= d1,
            ival == digits_value(s@.subrange(sl as int, i as int)),
            ival < 1000000000,
        decreases int_end - i,
    {
        let d = (s[i] - 48) as u64;
        let nv = ival * 10 + d;
        proof {
            assert(s@.subrange(sl as int, i + 1).drop_last() =~= s@.subrange(sl as int, i as int));
            assert(digits_value(s@.subrange(sl as int, i + 1)) == nv);
        }
        if nv >= 1000000000 {
            proof {
                lemma_pow10_values();
                let ip = int_digits(s@);
                if all_digits(ip) {
                    lemma_find_dot(body);
                    let k = i + 1 - sl;
                    assert(ip =~= body.take(find_dot(body)));
                    assert(ip.take(k) =~= s@.subrange(sl as int, i + 1));
                    lemma_digits_value_prefix(ip, k);
                    let p = pow10((ip.len() - k) as nat);
                    lemma_pow10_pos((ip.len() - k) as nat);
                    assert(digits_value(ip.take(k)) * p >= digits_value(ip.take(k)) * 1)
                        by (nonlinear_arith)
                        requires
                            p >= 1,
                            digits_value(ip.take(k)) >= 0,
                    ;
                    assert(digits_value(ip) >= 1000000000);
                }
                assert(!dec_ok(s@));
            }
            return None;
        }
        ival = nv;
        i = i + 1;
    }

    if i == n {
        // No fractional part: the body is all digits.
        proof {
            lemma_find_dot(body);
            assert(find_dot(body) == body.len());
            assert(int_digits(s@) =~= s@.subrange(sl as int, n as int));
            assert(frac_digits(s@) =~= Seq::<u8>::empty());
            lemma_pow10_values();
        }
        if int_end == sl {
            proof {
                assert(!dec_ok(s@));
            }
            return None;
        }
        proof {
            assert(frac4_value(frac_digits(s@)) == 0);
            assert(dec_ok(s@));
        }
        return Some(Decimal { neg, m4: ival * 10000, sticky: false });
    }

    // A non-digit stopped the scan: it must be the decimal point.
    if s[i] != 46 {
        proof {
            lemma_find_dot(body);
            let k = i - sl;
            assert(body[k] == s@[i as int]);
            if find_dot(body) == k {
                assert(body[k] == 46);
            }
            assert(find_dot(body) > k);
            assert(int_digits(s@)[k] == s@[i as int]);
            assert(!all_digits(int_digits(s@)));
            assert(!dec_ok(s@));
        }
        return None;
    }
    let ghost k = i - sl;
    proof {
        lemma_find_dot_at(body, k);
        assert(int_digits(s@) =~= s@.subrange(sl as int, i as int));
    }
    let frac_start = i + 1;
    let ghost fp = frac_digits(s@);
    proof {
        assert(fp =~= s@.subrange(frac_start as int, n as int));
    }

    let frac_end = scan_digits(s, frac_start);
    if frac_end < n {
        proof {
            assert(fp[frac_end - frac_start] == s@[frac_end as int]);
            assert(!all_digits(fp));
            assert(!dec_ok(s@));
        }
        return None;
    }
    let ghost d2 = n - frac_start;
    if int_end == sl && frac_start == n {
        proof {
            assert(!dec_ok(s@));
        }
        return None;
    }
    let ghost ip = int_digits(s@);
    proof {
        assert(ip =~= s@.subrange(sl as int, int_end as int));
        assert forall|j: int| 0 <= j < ip.len() implies is_digit(#[trigger] ip[j]) by {
            assert(ip[j] == s@[sl + j]);
        }
        assert forall|j: int| 0 <= j < fp.len() implies is_digit(#[trigger] fp[j]) by {
            assert(fp[j] == s@[frac_start + j]);
        }
        lemma_pow10_values();
        assert(dec_ok(s@));
    }

    // First four fractional digits.
    let mut fval: u64 = 0;
    let stop = if n - frac_start >= 4 {
        frac_start + 4
    } else {
        n
    };
    let mut j = frac_start;
    while j < stop
        invariant
            frac_start <= j <= stop <= n == s@.len(),
            stop - frac_start <= 4,
            fp =~= s@.subrange(frac_start as int, n as int),
            forall|t: int| frac_start <= t < n ==> is_digit(#[trigger] s@[t]),
            fval == digits_value(s@.subrange(frac_start as int, j as int)),
            fval < pow10((j - frac_start) as nat),
            fval < 10000,
        decreases stop - j,
    {
        let d = (s[j] - 48) as u64;
        proof {
            assert(s@.subrange(frac_start as int, j + 1).drop_last() =~= s@.subrange(
                frac_start as int,
                j as int,
            ));
            lemma_digits_value_nonneg(s@.subrange(frac_start as int, j as int));
            assert(pow10((j + 1 - frac_start) as nat) == 10 * pow10((j - frac_start) as nat));
            crate::numfmt::lemma_pow10_le((j + 1 - frac_start) as nat, 4);
            lemma_pow10_values();
        }
        fval = fval * 10 + d;
        j = j + 1;
    }

    let frac4: u64 = if n - frac_start >= 4 {
        proof {
            assert(fp.take(4) =~= s@.subrange(frac_start as int, frac_start + 4));
        }
        fval
    } else {
        proof {
            assert(fp =~= s@.subrange(frac_start as int, n as int));
            lemma_pow10_values();
            lemma_digits_value_nonneg(fp);
        }
        let scale = pow10_u64((4 - (n - frac_start)) as u32);
        proof {
            assert(pow10((n - frac_start) as nat) * pow10((4 - (n - frac_start)) as nat)
                == 10000) by {
                lemma_pow10_values();
                if n - frac_start == 1 {
                } else if n - frac_start == 2 {
                } else if n - frac_start == 3 {
                }
            }
            assert(fval * scale < 10000) by (nonlinear_arith)
                requires
                    0 <= fval,
                    fval < pow10((n - frac_start) as nat),
                    scale == pow10((4 - (n - frac_start)) as nat),
                    pow10((n - frac_start) as nat) * pow10((4 - (n - frac_start)) as nat)
                        == 10000,
            ;
        }
        fval * scale
    };

    // Sticky: any nonzero digit beyond the fourth.
    let mut sticky = false;
    let mut t = stop;
    while t < n
        invariant
            stop <= t <= n == s@.len(),
            frac_start + 4 >= stop,
            stop - frac_start <= 4,
            n - frac_start >= 4 ==> stop == frac_start + 4,
            n - frac_start < 4 ==> stop == n,
            fp =~= s@.subrange(frac_start as int, n as int),
            sticky == exists|u: int| 4 <= u < t - frac_start && fp[u] != 48,
        decreases n - t,
    {
        if s[t] != 48 {
            proof {
                assert(fp[t - frac_start] == s@[t as int]);
                assert(4 <= t - frac_start < n - frac_start);
            }
            sticky = true;
        }
        t = t + 1;
    }
    proof {
        assert(sticky == frac_sticky(fp));
    }

    proof {
        lemma_pow10_values();
        lemma_digits_value_nonneg(s@.subrange(sl as int, int_end as int));
    }
    let m4 = ival * 10000 + frac4;
    Some(Decimal { neg, m4, sticky })
}

} // verus!

verus! {

/// The payload bytes for the non-negative magnitude `mag` at scale
/// `10^sc`, rounded half-to-even to `p` fractional digits: optional `-`,
/// the whole digits, `.`, then exactly `p` fractional digits.
pub open spec fn spec_format_mag(neg: bool, mag: int, sticky: bool, sc: nat, p: nat) -> Seq<u8>
    recommends
        p <= sc,
        mag >= 0,
{
    let q = round_mag(mag, pow10((sc - p) as nat), sticky);
    let whole = q / pow10(p as nat);
    let frac = q % pow10(p as nat);
    (if neg {
        seq![45u8]
    } else {
        Seq::<u8>::empty()
    }) + dec_digits(whole as nat) + seq![46u8] + padded_digits(frac as nat, p)
}

/// The payload a decimal reading publishes at precision `p`.
pub open spec fn spec_dec_payload(d: Decimal, p: nat) -> Seq<u8> {
    spec_format_mag(d.neg, d.m4 as int, d.sticky, 4, p)
}

/// The payload a pressure reading in inches of mercury publishes in
/// hectopascals: the value times 33.86, rounded to one fractional digit.
pub open spec fn spec_pressure_payload(d: Decimal) -> Seq<u8> {
    spec_format_mag(d.neg, d.m4 * 3386, d.sticky, 6, 1)
}

/// Formats a scaled magnitude as sign, whole digits, point, and exactly
/// `p` fractional digits.
pub(crate) fn format_scaled(neg: bool, mag: u64, sticky: bool, sc: u32, p: u32) -> (out: Vec<u8>)
    requires
        p <= sc <= 6,
        mag < 100000000000000000,
    ensures
        out@ == spec_format_mag(neg, mag as int, sticky, sc as nat, p as nat),
{
    proof {
        lemma_pow10_values();
        crate::numfmt::lemma_pow10_le(((sc - p) as u32) as nat, 6);
        crate::numfmt::lemma_pow10_pos(((sc - p) as u32) as nat);
        crate::numfmt::lemma_pow10_pos(p as nat);
    }
    let den = pow10_u64(sc - p);
    let q = round_mag_u64(mag, den, sticky);
    let pp = pow10_u64(p);
    let whole = q / pp;
    let frac = q % pp;
    let mut out: Vec<u8> = Vec::new();
    if neg {
        out.push(45);
    }
    push_dec_digits(whole, &mut out);
    out.push(46);
    push_padded_digits(frac, p, &mut out);
    proof {
        assert(out@ =~= spec_format_mag(neg, mag as int, sticky, sc as nat, p as nat));
    }
    out
}

/// Formats a decimal reading with exactly `p` digits after the point.
pub fn format_decimal(d: &Decimal, p: u32) -> (out: Vec<u8>)
    requires
        dec_wf(*d),
        1 <= p <= 3,
    ensures
        out@ == spec_dec_payload(*d, p as nat),
{
    format_scaled(d.neg, d.m4, d.sticky, 4, p)
}

/// Converts a pressure reading in inches of mercury to hectopascals
/// (times 33.86, exactly) and formats it to one fractional digit.
pub fn pressure_hpa_payload(d: &Decimal) -> (out: Vec<u8>)
    requires
        dec_wf(*d),
    ensures
        out@ == spec_pressure_payload(*d),
{
    format_scaled(d.neg, d.m4 * 3386, d.sticky, 6, 1)
}

/// The signed scale-ten-thousand magnitude of a reading, for the derived
/// metric formulas.
pub fn signed_m4(d: &Decimal) -> (r: i64)
    requires
        dec_wf(*d),
    ensures
        r == dec_signed_m4(*d),
{
    if d.neg {
        -(d.m4 as i64)
    } else {
        d.m4 as i64
    }
}

/// Every formatted payload carries exactly `p` digits after its only
/// decimal point, whatever the sign of the reading.
pub proof fn lemma_payload_digits_after_point(
    neg: bool,
    mag: int,
    sticky: bool,
    sc: nat,
    p: nat,
)
    requires
        p <= sc,
        mag >= 0,
    ensures
        ({
            let out = spec_format_mag(neg, mag, sticky, sc, p);
            let dot = out.len() - p - 1;
            &&& out.len() >= p + 2
            &&& out[dot as int] == 46
            &&& forall|j: int| dot < j < out.len() ==> is_digit(#[trigger] out[j])
            &&& forall|j: int| 0 <= j < dot ==> out[j] != 46
        }),
{
    let den = pow10((sc - p) as nat);
    lemma_pow10_pos((sc - p) as nat);
    lemma_pow10_pos(p);
    let q = round_mag(mag, den, sticky);
    let whole = q / pow10(p);
    let frac = q % pow10(p);
    let sign = if neg {
        seq![45u8]
    } else {
        Seq::<u8>::empty()
    };
    crate::numfmt::lemma_dec_digits(whole as nat);
    crate::numfmt::lemma_padded_digits(frac as nat, p);
    let dd = dec_digits(whole as nat);
    let pd = padded_digits(frac as nat, p);
    let out = spec_format_mag(neg, mag, sticky, sc, p);
    assert(out =~= sign + dd + seq![46u8] + pd);
    let dot = sign.len() + dd.len();
    assert(out.len() == dot + 1 + p);
    assert(out[dot as int] == 46);
    assert forall|j: int| dot < j < out.len() implies is_digit(#[trigger] out[j]) by {
        assert(out[j] == pd[j - dot - 1]);
    }
    assert forall|j: int| 0 <= j < dot implies out[j] != 46 by {
        if j < sign.len() {
            assert(out[j] == 45);
        } else {
            assert(out[j] == dd[j - sign.len()]);
            assert(is_digit(dd[j - sign.len()]));
        }
    }
}


/// A decimal field's payload carries exactly its configured number of
/// digits after its only decimal point, for positive and negative
/// readings alike.
pub proof fn lemma_dec_payload_precision(d: Decimal, p: nat)
    requires
        dec_wf(d),
        1 <= p <= 3,
    ensures
        ({
            let out = spec_dec_payload(d, p);
            let dot = out.len() - p - 1;
            &&& out.len() >= p + 2
            &&& out[dot as int] == 46
            &&& forall|j: int| dot < j < out.len() ==> is_digit(#[trigger] out[j])
            &&& forall|j: int| 0 <= j < dot ==> out[j] != 46
        }),
{
    lemma_payload_digits_after_point(d.neg, d.m4 as int, d.sticky, 4, p);
}

/// A pressure field's payload carries exactly one digit after its only
/// decimal point.
pub proof fn lemma_pressure_payload_precision(d: Decimal)
    requires
        dec_wf(d),
    ensures
        ({
            let out = spec_pressure_payload(d);
            let dot = out.len() - 2;
            &&& out.len() >= 3
            &&& out[dot as int] == 46
            &&& forall|j: int| dot < j < out.len() ==> is_digit(#[trigger] out[j])
            &&& forall|j: int| 0 <= j < dot ==> out[j] != 46
        }),
{
    lemma_payload_digits_after_point(d.neg, d.m4 * 3386, d.sticky, 6, 1);
}

} // verus!
