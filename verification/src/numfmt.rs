//! Decimal digit strings and round-half-to-even: the numeric base layer for
//! parsing raw field values and formatting payloads.

use vstd::prelude::*;

verus! {

/// Ten raised to the power `e`, as a mathematical integer.
pub open spec fn pow10(e: nat) -> int
    decreases e,
{
    if e == 0 {
        1
    } else {
        10 * pow10((e - 1) as nat)
    }
}

pub proof fn lemma_pow10_pos(e: nat)
    ensures
        pow10(e) >= 1,
    decreases e,
{
    if e > 0 {
        lemma_pow10_pos((e - 1) as nat);
    }
}

/// The concrete powers of ten this crate works with.
pub proof fn lemma_pow10_values()
    ensures
        pow10(0) == 1,
        pow10(1) == 10,
        pow10(2) == 100,
        pow10(3) == 1000,
        pow10(4) == 10000,
        pow10(5) == 100000,
        pow10(6) == 1000000,
        pow10(7) == 10000000,
        pow10(8) == 100000000,
        pow10(9) == 1000000000,
        pow10(13) == 10000000000000,
{
    reveal_with_fuel(pow10, 14);
}

pub proof fn lemma_pow10_le(a: nat, b: nat)
    requires
        a <= b,
    ensures
        pow10(a) <= pow10(b),
    decreases b,
{
    if a < b {
        lemma_pow10_le(a, (b - 1) as nat);
        lemma_pow10_pos((b - 1) as nat);
    }
}

/// True when `b` is the ASCII code of a decimal digit.
pub open spec fn is_digit(b: u8) -> bool {
    48 <= b <= 57
}

/// True when every byte of `s` is a decimal digit.
pub open spec fn all_digits(s: Seq<u8>) -> bool {
    forall|i: int| 0 <= i < s.len() ==> is_digit(#[trigger] s[i])
}

/// The numeric value of a digit string, most significant digit first.
pub open spec fn digits_value(s: Seq<u8>) -> int
    decreases s.len(),
{
    if s.len() == 0 {
        0
    } else {
        digits_value(s.drop_last()) * 10 + (s.last() - 48)
    }
}

pub proof fn lemma_digits_value_nonneg(s: Seq<u8>)
    requires
        all_digits(s),
    ensures
        digits_value(s) >= 0,
    decreases s.len(),
{
    if s.len() > 0 {
        assert(all_digits(s.drop_last()));
        lemma_digits_value_nonneg(s.drop_last());
    }
}

/// Extending a digit string to the right can only scale its value up:
/// the whole string is worth at least its prefix times the matching power of ten.
pub proof fn lemma_digits_value_prefix(s: Seq<u8>, i: int)
    requires
        all_digits(s),
        0 <= i <= s.len(),
    ensures
        digits_value(s) >= digits_value(s.take(i)) * pow10((s.len() - i) as nat),
    decreases s.len(),
{
    if i == s.len() {
        assert(s.take(i) =~= s);
    } else {
        let t = s.drop_last();
        assert(all_digits(t));
        assert(t.take(i) =~= s.take(i));
        lemma_digits_value_prefix(t, i);
        lemma_digits_value_nonneg(s.take(i));
        let p = pow10((t.len() - i) as nat);
        let v = digits_value(s.take(i));
        assert(digits_value(t) * 10 >= (v * p) * 10) by (nonlinear_arith)
            requires
                digits_value(t) >= v * p,
        ;
        assert((v * p) * 10 == v * (10 * p)) by (nonlinear_arith);
        assert(pow10((s.len() - i) as nat) == 10 * p);
        assert(digits_value(s) >= digits_value(t) * 10);
    }
}

/// The digit string of a natural number, without leading zeros
/// (a single zero digit for zero).
pub open spec fn dec_digits(n: nat) -> Seq<u8>
    decreases n,
{
    if n < 10 {
        seq![(48 + n) as u8]
    } else {
        dec_digits(n / 10).push((48 + n % 10) as u8)
    }
}

pub proof fn lemma_dec_digits(n: nat)
    ensures
        dec_digits(n).len() >= 1,
        all_digits(dec_digits(n)),
        digits_value(dec_digits(n)) == n,
    decreases n,
{
    if n < 10 {
        assert(digits_value(dec_digits(n).drop_last()) == 0) by {
            assert(dec_digits(n).drop_last() =~= Seq::<u8>::empty());
        }
    } else {
        lemma_dec_digits(n / 10);
        assert(dec_digits(n).drop_last() =~= dec_digits(n / 10));
    }
}

/// The digit string of `n` padded or truncated on the left to exactly
/// `w` digits (the `w` least significant digits of `n`).
pub open spec fn padded_digits(n: nat, w: nat) -> Seq<u8>
    decreases w,
{
    if w == 0 {
        Seq::empty()
    } else {
        padded_digits(n / 10, (w - 1) as nat).push((48 + n % 10) as u8)
    }
}

pub proof fn lemma_padded_digits(n: nat, w: nat)
    ensures
        padded_digits(n, w).len() == w,
        all_digits(padded_digits(n, w)),
        n < pow10(w) ==> digits_value(padded_digits(n, w)) == n,
    decreases w,
{
    if w > 0 {
        lemma_padded_digits(n / 10, (w - 1) as nat);
        assert(padded_digits(n, w).drop_last() =~= padded_digits(n / 10, (w - 1) as nat));
        if n < pow10(w) {
            assert(n / 10 < pow10((w - 1) as nat) && (n / 10) * 10 + n % 10 == n)
                by (nonlinear_arith)
                requires
                    n < 10 * pow10((w - 1) as nat),
                    n >= 0,
            ;
        }
    }
}

/// Rounds a non-negative scaled magnitude `m` down to a coarser scale by the
/// positive factor `den`: to nearest, ties to the even quotient. When `sticky`
/// holds (digits beyond `m` were dropped, so the true value is slightly above
/// `m`), an apparent tie is really above the midpoint and rounds up.
pub open spec fn round_mag(m: int, den: int, sticky: bool) -> int {
    let q = m / den;
    let r = m % den;
    if 2 * r > den {
        q + 1
    } else if 2 * r < den {
        q
    } else if sticky {
        q + 1
    } else if q % 2 == 1 {
        q + 1
    } else {
        q
    }
}

/// Executable form of [`round_mag`] for magnitudes that fit in a `u64`.
pub fn round_mag_u64(m: u64, den: u64, sticky: bool) -> (r: u64)
    requires
        0 < den <= 1000000,
        m < 0xffff_ffff_ffff_ffff,
    ensures
        r == round_mag(m as int, den as int, sticky),
{
    let q = m / den;
    let rem = m % den;
    if 2 * rem > den {
        q + 1
    } else if 2 * rem < den {
        q
    } else if sticky {
        q + 1
    } else if q % 2 == 1 {
        q + 1
    } else {
        q
    }
}

/// Small executable powers of ten.
pub fn pow10_u64(e: u32) -> (r: u64)
    requires
        e <= 9,
    ensures
        r == pow10(e as nat),
{
    proof {
        lemma_pow10_values();
    }
    if e == 0 {
        1
    } else if e == 1 {
        10
    } else if e == 2 {
        100
    } else if e == 3 {
        1000
    } else if e == 4 {
        10000
    } else if e == 5 {
        100000
    } else if e == 6 {
        1000000
    } else if e == 7 {
        10000000
    } else if e == 8 {
        100000000
    } else {
        1000000000
    }
}

/// Appends the digit string of `n` to `out`.
pub fn push_dec_digits(n: u64, out: &mut Vec<u8>)
    ensures
        final(out)@ == old(out)@ + dec_digits(n as nat),
    decreases n,
{
    if n < 10 {
        out.push(48 + n as u8);
        proof {
            assert(out@ =~= old(out)@ + dec_digits(n as nat));
        }
    } else {
        push_dec_digits(n / 10, out);
        out.push(48 + (n % 10) as u8);
        proof {
            assert(out@ =~= old(out)@ + dec_digits(n as nat));
        }
    }
}

/// Appends exactly `w` digits of `n`, zero padded on the left.
pub fn push_padded_digits(n: u64, w: u32, out: &mut Vec<u8>)
    ensures
        final(out)@ == old(out)@ + padded_digits(n as nat, w as nat),
    decreases w,
{
    if w > 0 {
        push_padded_digits(n / 10, w - 1, out);
        out.push(48 + (n % 10) as u8);
        proof {
            assert(out@ =~= old(out)@ + padded_digits(n as nat, w as nat));
        }
    } else {
        proof {
            assert(out@ =~= old(out)@ + padded_digits(n as nat, w as nat));
        }
    }
}

} // verus!
