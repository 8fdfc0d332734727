//! Whole-number readings: fields such as humidity and wind direction are
//! parsed as signed 32-bit integers and published as their canonical
//! decimal string, with no fractional part.

use vstd::prelude::*;

use crate::decimal::{dec_body, sign_len};
use crate::numfmt::{
    all_digits, dec_digits, digits_value, is_digit, lemma_dec_digits, lemma_digits_value_prefix,
    lemma_pow10_pos, push_dec_digits,
};

verus! {

/// The grammar a raw whole-number value must satisfy: an optional sign,
/// one or more digits, and a value that fits a signed 32-bit integer.
pub open spec fn int_ok(s: Seq<u8>) -> bool {
    let b = dec_body(s);
    b.len() >= 1 && all_digits(b) && -0x8000_0000 <= spec_int_value(s) <= 0x7fff_ffff
}

/// The signed value a raw whole-number string denotes.
pub open spec fn spec_int_value(s: Seq<u8>) -> int {
    if s.len() > 0 && s[0] == 45 {
        -digits_value(dec_body(s))
    } else {
        digits_value(dec_body(s))
    }
}

/// The payload a whole-number reading publishes: its canonical decimal
/// string, a leading `-` for negative values and no decimal point.
pub open spec fn spec_int_payload(v: i32) -> Seq<u8> {
    (if v < 0 {
        seq![45u8]
    } else {
        Seq::<u8>::empty()
    }) + dec_digits((if v < 0 {
        -(v as int)
    } else {
        v as int
    }) as nat)
}

/// Parses a raw field value as a signed 32-bit integer: an optional sign
/// followed only by digits, rejecting values out of range.
pub fn parse_int(s: &[u8]) -> (r: Option<i32>)
    ensures
        int_ok(s@) ==> r == Some(spec_int_value(s@) as i32),
        !int_ok(s@) ==> r is None,
{
    let n = s.len();
    let mut i: usize = 0;
    let mut neg = false;
    if n > 0 && (s[0] == 43 || s[0] == 45) {
        neg = s[0] == 45;
        i = 1;
    }
    let sl: usize = i;
    let ghost body = dec_body(s@);
    proof {
        assert(sign_len(s@) == sl as int);
        assert(body =~= s@.subrange(sl as int, n as int));
    }
    if i == n {
        // No digits at all.
        return None;
    }
    let mut mag: u64 = 0;
    while i < n
        invariant
            sl <= i <= n == s@.len(),
            body =~= s@.subrange(sl as int, n as int),
            body == dec_body(s@),
            forall|j: int| sl <= j < i ==> is_digit(#[trigger] s@[j]),
            mag == digits_value(s@.subrange(sl as int, i as int)),
            mag <= 0x8000_0000,
        decreases n - i,
    {
        let c = s[i];
        if !(48 <= c && c <= 57) {
            proof {
                assert(body[i - sl] == s@[i as int]);
                assert(!all_digits(body));
            }
            return None;
        }
        let d = (c - 48) as u64;
        let nv = mag * 10 + d;
        proof {
            assert(s@.subrange(sl as int, i + 1).drop_last() =~= s@.subrange(sl as int, i as int));
            assert(digits_value(s@.subrange(sl as int, i + 1)) == nv);
        }
        if nv > 0x8000_0000 {
            proof {
                if all_digits(body) {
                    let k = i + 1 - sl;
                    assert(body.take(k) =~= s@.subrange(sl as int, i + 1));
                    lemma_digits_value_prefix(body, k);
                    let p = crate::numfmt::pow10((body.len() - k) as nat);
                    lemma_pow10_pos((body.len() - k) as nat);
                    assert(digits_value(body.take(k)) * p >= digits_value(body.take(k)) * 1)
                        by (nonlinear_arith)
                        requires
                            p >= 1,
                            digits_value(body.take(k)) >= 0,
                    ;
                    assert(digits_value(body) > 0x8000_0000);
                }
                assert(!int_ok(s@));
            }
            return None;
        }
        mag = nv;
        i = i + 1;
    }
    proof {
        assert(body =~= s@.subrange(sl as int, n as int));
        assert forall|j: int| 0 <= j < body.len() implies is_digit(#[trigger] body[j]) by {
            assert(body[j] == s@[sl + j]);
        }
        assert(mag == digits_value(body));
    }
    if neg {
        proof {
            assert(int_ok(s@));
        }
        Some((-(mag as i64)) as i32)
    } else {
        if mag == 0x8000_0000 {
            proof {
                assert(spec_int_value(s@) == 0x8000_0000);
                assert(!int_ok(s@));
            }
            return None;
        }
        proof {
            assert(int_ok(s@));
        }
        Some(mag as i32)
    }
}

/// Formats a whole-number reading as its canonical decimal string.
pub fn format_int(v: i32) -> (out: Vec<u8>)
    ensures
        out@ == spec_int_payload(v),
{
    let mut out: Vec<u8> = Vec::new();
    let mag: u64 = if v < 0 {
        out.push(45);
        (-(v as i64)) as u64
    } else {
        v as u64
    };
    push_dec_digits(mag, &mut out);
    proof {
        assert(out@ =~= spec_int_payload(v));
    }
    out
}

/// A whole-number payload holds no decimal point, and parsing it back
/// yields exactly the value that was formatted.
pub proof fn lemma_int_payload_round_trip(v: i32)
    ensures
        ({
            let out = spec_int_payload(v);
            &&& forall|j: int| 0 <= j < out.len() ==> out[j] != 46
            &&& int_ok(out)
            &&& spec_int_value(out) == v
        }),
{
    let mag = (if v < 0 {
        -(v as int)
    } else {
        v as int
    }) as nat;
    lemma_dec_digits(mag);
    let dd = dec_digits(mag);
    let out = spec_int_payload(v);
    if v < 0 {
        assert(out =~= seq![45u8] + dd);
        assert(out[0] == 45);
        assert(sign_len(out) == 1);
        assert(dec_body(out) =~= dd);
    } else {
        assert(out =~= dd);
        assert(is_digit(out[0]));
        assert(sign_len(out) == 0);
        assert(dec_body(out) =~= dd);
    }
    assert forall|j: int| 0 <= j < out.len() implies out[j] != 46 by {
        if v < 0 && j == 0 {
        } else {
            let k = if v < 0 {
                j - 1
            } else {
                j
            };
            assert(out[j] == dd[k]);
            assert(is_digit(dd[k]));
        }
    }
}

} // verus!
