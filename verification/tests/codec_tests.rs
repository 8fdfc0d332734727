//! Parsing and formatting of individual field values.

use ambw_mqtt::decimal::{format_decimal, parse_decimal, pressure_hpa_payload, Decimal};
use ambw_mqtt::heat::heat_index_deci;
use ambw_mqtt::wholenum::{format_int, parse_int};

#[test]
fn parse_plain_decimal() {
    let d = parse_decimal(b"29.92").unwrap();
    assert_eq!(
        d,
        Decimal {
            neg: false,
            m4: 299200,
            sticky: false
        }
    );
}

#[test]
fn parse_signed_decimals() {
    assert_eq!(
        parse_decimal(b"-0.04").unwrap(),
        Decimal {
            neg: true,
            m4: 400,
            sticky: false
        }
    );
    assert_eq!(
        parse_decimal(b"+5.").unwrap(),
        Decimal {
            neg: false,
            m4: 50000,
            sticky: false
        }
    );
    assert_eq!(
        parse_decimal(b".5").unwrap(),
        Decimal {
            neg: false,
            m4: 5000,
            sticky: false
        }
    );
}

#[test]
fn parse_decimal_rejects_garbage() {
    assert_eq!(parse_decimal(b"abc"), None);
    assert_eq!(parse_decimal(b""), None);
    assert_eq!(parse_decimal(b"."), None);
    assert_eq!(parse_decimal(b"-"), None);
    assert_eq!(parse_decimal(b"1e3"), None);
    assert_eq!(parse_decimal(b"12.3.4"), None);
    assert_eq!(parse_decimal(b"1 2"), None);
    assert_eq!(parse_decimal(b"1000000000"), None);
}

#[test]
fn parse_decimal_tracks_dropped_digits() {
    let exact = parse_decimal(b"1.250000").unwrap();
    assert!(!exact.sticky);
    assert_eq!(exact.m4, 12500);
    let inexact = parse_decimal(b"1.2500001").unwrap();
    assert!(inexact.sticky);
    assert_eq!(inexact.m4, 12500);
}

#[test]
fn format_fixed_precision() {
    let d = parse_decimal(b"29.92").unwrap();
    assert_eq!(format_decimal(&d, 1), b"29.9".to_vec());
    assert_eq!(format_decimal(&d, 2), b"29.92".to_vec());
    assert_eq!(format_decimal(&d, 3), b"29.920".to_vec());
    let w = parse_decimal(b"5").unwrap();
    assert_eq!(format_decimal(&w, 3), b"5.000".to_vec());
}

#[test]
fn format_rounds_half_to_even() {
    let lo = parse_decimal(b"1.25").unwrap();
    assert_eq!(format_decimal(&lo, 1), b"1.2".to_vec());
    let hi = parse_decimal(b"1.35").unwrap();
    assert_eq!(format_decimal(&hi, 1), b"1.4".to_vec());
    let sticky = parse_decimal(b"1.2500001").unwrap();
    assert_eq!(format_decimal(&sticky, 1), b"1.3".to_vec());
}

#[test]
fn format_negative_keeps_sign() {
    let d = parse_decimal(b"-1.25").unwrap();
    assert_eq!(format_decimal(&d, 1), b"-1.2".to_vec());
    let z = parse_decimal(b"-0.04").unwrap();
    assert_eq!(format_decimal(&z, 1), b"-0.0".to_vec());
}

#[test]
fn pressure_inhg_to_hpa() {
    let d = parse_decimal(b"29.92").unwrap();
    assert_eq!(pressure_hpa_payload(&d), b"1013.1".to_vec());
}

#[test]
fn pressure_negative_and_zero() {
    let z = parse_decimal(b"0").unwrap();
    assert_eq!(pressure_hpa_payload(&z), b"0.0".to_vec());
    let one = parse_decimal(b"1").unwrap();
    assert_eq!(pressure_hpa_payload(&one), b"33.9".to_vec());
}

#[test]
fn parse_whole_numbers() {
    assert_eq!(parse_int(b"42"), Some(42));
    assert_eq!(parse_int(b"-17"), Some(-17));
    assert_eq!(parse_int(b"+8"), Some(8));
    assert_eq!(parse_int(b"2147483647"), Some(2147483647));
    assert_eq!(parse_int(b"-2147483648"), Some(-2147483648));
    assert_eq!(parse_int(b"007"), Some(7));
}

#[test]
fn parse_whole_rejects() {
    assert_eq!(parse_int(b"2147483648"), None);
    assert_eq!(parse_int(b"12.5"), None);
    assert_eq!(parse_int(b""), None);
    assert_eq!(parse_int(b"-"), None);
    assert_eq!(parse_int(b"4x"), None);
}

#[test]
fn format_whole_numbers() {
    assert_eq!(format_int(0), b"0".to_vec());
    assert_eq!(format_int(-5), b"-5".to_vec());
    assert_eq!(format_int(360), b"360".to_vec());
    assert_eq!(format_int(i32::MIN), b"-2147483648".to_vec());
}

#[test]
fn whole_number_round_trip() {
    for v in [0, 1, -1, 99, -360, 2147483647, -2147483648] {
        assert_eq!(parse_int(&format_int(v)), Some(v));
    }
}

#[test]
fn heat_index_below_eighty_passes_through() {
    assert_eq!(heat_index_deci(700000, 500000), 700);
}

#[test]
fn heat_index_rothfusz_branch() {
    // T=90, RH=50: no correction band; the regression gives 94.5969412.
    assert_eq!(heat_index_deci(900000, 500000), 946);
}

#[test]
fn heat_index_low_humidity_band() {
    // T=85, RH=10: the regression alone gives 81.88; the subtracted
    // term 0.75 * sqrt(7/17) = 0.481 brings it to 81.4.
    assert_eq!(heat_index_deci(850000, 100000), 814);
}

#[test]
fn heat_index_high_humidity_band() {
    // T=82, RH=90: the regression alone gives 91.49; the added
    // term 0.5 * 1.0 brings it to 92.0.
    assert_eq!(heat_index_deci(820000, 900000), 920);
}

#[test]
fn heat_index_steadman_branch() {
    // T=80, RH=10: Steadman gives 78.17, average 79.085 below 80.
    // 0.5 * (80 + 61 + 12 * 1.2 + 0.94) = 78.17 -> 78.2 in tenths.
    assert_eq!(heat_index_deci(800000, 100000), 782);
}
