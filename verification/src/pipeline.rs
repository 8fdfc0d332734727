//! Request processing: credential check, the field pipeline over the full
//! table, and the derived metrics, all expressed as a pure function from
//! the raw query parameters to the batch of messages to publish.

use vstd::prelude::*;

use crate::bytes::{ascii_bytes, bytes_eq, lit, push_bytes, to_vec_bytes};
use crate::decimal::{
    dec_ok, dec_signed_m4, format_decimal, format_scaled, parse_decimal, pressure_hpa_payload,
    signed_m4, spec_dec_payload, spec_decimal, spec_format_mag, spec_pressure_payload,
};
use crate::fields::{
    field_table, kind_wf, lemma_field_table_wf, spec_field_table, table_model, ValueKind,
};
use crate::heat::{heat_index_deci, iabs, spec_heat_index_deci};
use crate::wholenum::{format_int, int_ok, parse_int, spec_int_payload, spec_int_value};

verus! {

/// One raw query parameter: a key and its string value.
pub struct Param {
    pub key: Vec<u8>,
    pub value: Vec<u8>,
}

/// One message ready for publication to the broker.
pub struct Sample {
    pub topic: Vec<u8>,
    pub payload: Vec<u8>,
    pub retained: bool,
}

/// Why a field was skipped; skipping never fails the request.
#[derive(Clone, Copy, PartialEq, Eq, Structural, Debug)]
pub enum IssueKind {
    MissingField,
    UnparseableValue,
}

/// A skipped field: its key, the raw value (empty when missing) and why.
pub struct FieldIssue {
    pub key: Vec<u8>,
    pub raw: Vec<u8>,
    pub kind: IssueKind,
}

/// A rejected request.
#[derive(Clone, Copy, PartialEq, Eq, Structural, Debug)]
pub enum RequestError {
    InvalidCredentials,
}

/// The wind-chill comparison made available for diagnostics: the parsed
/// temperature and wind speed (scaled by ten thousand) and the raw
/// station-reported wind chill. Deliberately not published.
pub struct ChillCheck {
    pub temp_m4: i64,
    pub wind_m4: i64,
    pub reported: Vec<u8>,
}

/// Everything one accepted request produces, in publish order.
pub struct RequestOutcome {
    pub samples: Vec<Sample>,
    pub issues: Vec<FieldIssue>,
    pub chill: Option<ChillCheck>,
}

/// The value of the first parameter whose key is `k`.
pub open spec fn lookup(ps: Seq<Param>, k: Seq<u8>) -> Option<Seq<u8>>
    decreases ps.len(),
{
    if ps.len() == 0 {
        None
    } else if ps[0].key@ == k {
        Some(ps[0].value@)
    } else {
        lookup(ps.drop_first(), k)
    }
}

/// The state topic a field publishes to.
pub open spec fn state_topic(suffix: Seq<u8>) -> Seq<u8> {
    ascii_bytes("homeassistant/sensor/ambientWeather/"@) + suffix + ascii_bytes("/state"@)
}

/// The payload a raw value yields under a field kind, or `None` when the
/// value does not parse.
pub open spec fn spec_field_payload(raw: Seq<u8>, k: ValueKind) -> Option<Seq<u8>> {
    match k {
        ValueKind::Integer => if int_ok(raw) {
            Some(spec_int_payload(spec_int_value(raw) as i32))
        } else {
            None
        },
        ValueKind::Decimal(p) => if dec_ok(raw) {
            Some(spec_dec_payload(spec_decimal(raw), p as nat))
        } else {
            None
        },
        ValueKind::PressureInHg => if dec_ok(raw) {
            Some(spec_pressure_payload(spec_decimal(raw)))
        } else {
            None
        },
    }
}

/// The messages one table entry yields: one non-retained state sample on a
/// successful parse, none otherwise.
pub open spec fn field_samples(ps: Seq<Param>, e: (Seq<u8>, Seq<u8>, ValueKind)) -> Seq<
    (Seq<u8>, Seq<u8>, bool),
> {
    match lookup(ps, e.0) {
        None => Seq::empty(),
        Some(raw) => match spec_field_payload(raw, e.2) {
            None => Seq::empty(),
            Some(pl) => seq![(state_topic(e.1), pl, false)],
        },
    }
}

/// The issue one table entry yields: missing key, unparseable value, or none.
pub open spec fn field_issues(ps: Seq<Param>, e: (Seq<u8>, Seq<u8>, ValueKind)) -> Seq<
    (Seq<u8>, Seq<u8>, IssueKind),
> {
    match lookup(ps, e.0) {
        None => seq![(e.0, Seq::<u8>::empty(), IssueKind::MissingField)],
        Some(raw) => if spec_field_payload(raw, e.2) is Some {
            Seq::empty()
        } else {
            seq![(e.0, raw, IssueKind::UnparseableValue)]
        },
    }
}

/// All field samples, in table order.
pub open spec fn samples_for(ps: Seq<Param>, tbl: Seq<(Seq<u8>, Seq<u8>, ValueKind)>) -> Seq<
    (Seq<u8>, Seq<u8>, bool),
>
    decreases tbl.len(),
{
    if tbl.len() == 0 {
        Seq::empty()
    } else {
        samples_for(ps, tbl.drop_last()) + field_samples(ps, tbl.last())
    }
}

/// All field issues, in table order.
pub open spec fn issues_for(ps: Seq<Param>, tbl: Seq<(Seq<u8>, Seq<u8>, ValueKind)>) -> Seq<
    (Seq<u8>, Seq<u8>, IssueKind),
>
    decreases tbl.len(),
{
    if tbl.len() == 0 {
        Seq::empty()
    } else {
        issues_for(ps, tbl.drop_last()) + field_issues(ps, tbl.last())
    }
}

/// The scaled inputs of the apparent temperature, when temperature and
/// humidity both parse and both lie within the formula's domain of plus
/// or minus ten thousand units.
pub open spec fn spec_heat_inputs(ps: Seq<Param>) -> Option<(int, int)> {
    match lookup(ps, ascii_bytes("tempf"@)) {
        None => None,
        Some(traw) => match lookup(ps, ascii_bytes("humidity"@)) {
            None => None,
            Some(hraw) => if dec_ok(traw) && dec_ok(hraw) && spec_decimal(traw).m4 <= 100000000
                && spec_decimal(hraw).m4 <= 100000000 {
                Some((dec_signed_m4(spec_decimal(traw)), dec_signed_m4(spec_decimal(hraw))))
            } else {
                None
            },
        },
    }
}

/// The apparent-temperature sample, when its inputs are available.
pub open spec fn heat_samples(ps: Seq<Param>) -> Seq<(Seq<u8>, Seq<u8>, bool)> {
    match spec_heat_inputs(ps) {
        None => Seq::empty(),
        Some(tr) => seq![
            (
                state_topic(ascii_bytes("feelsLike"@)),
                spec_heat_payload(spec_heat_index_deci(tr.0, tr.1)),
                false,
            ),
        ],
    }
}

/// The apparent-temperature payload for an index in tenths of a degree.
pub open spec fn spec_heat_payload(deci: int) -> Seq<u8> {
    spec_format_mag(deci < 0, iabs(deci), false, 1, 1)
}

/// The wind-chill comparison: performed only when temperature and wind
/// speed parse, the station also reported a wind chill, the temperature is
/// at most 50 and the wind speed above 3 (the formula's domain).
pub open spec fn spec_chill_check(ps: Seq<Param>) -> Option<(int, int, Seq<u8>)> {
    match lookup(ps, ascii_bytes("tempf"@)) {
        None => None,
        Some(traw) => match lookup(ps, ascii_bytes("windspeedmph"@)) {
            None => None,
            Some(wraw) => match lookup(ps, ascii_bytes("windchillf"@)) {
                None => None,
                Some(rep) => if dec_ok(traw) && dec_ok(wraw) && dec_signed_m4(spec_decimal(traw))
                    <= 500000 && dec_signed_m4(spec_decimal(wraw)) > 30000 {
                    Some(
                        (
                            dec_signed_m4(spec_decimal(traw)),
                            dec_signed_m4(spec_decimal(wraw)),
                            rep,
                        ),
                    )
                } else {
                    None
                },
            },
        },
    }
}

/// Valid credentials: the `ID` and `PASSWORD` parameters are present and
/// equal to the configured pair.
pub open spec fn creds_ok(ps: Seq<Param>, id: Seq<u8>, pw: Seq<u8>) -> bool {
    lookup(ps, ascii_bytes("ID"@)) == Some(id) && lookup(ps, ascii_bytes("PASSWORD"@)) == Some(pw)
}

/// The mathematical view of built samples.
pub open spec fn samples_view(v: Seq<Sample>) -> Seq<(Seq<u8>, Seq<u8>, bool)> {
    v.map_values(|s: Sample| (s.topic@, s.payload@, s.retained))
}

/// The mathematical view of recorded issues.
pub open spec fn issues_view(v: Seq<FieldIssue>) -> Seq<(Seq<u8>, Seq<u8>, IssueKind)> {
    v.map_values(|i: FieldIssue| (i.key@, i.raw@, i.kind))
}

/// The mathematical view of the wind-chill comparison.
pub open spec fn chill_view(c: Option<ChillCheck>) -> Option<(int, int, Seq<u8>)> {
    match c {
        None => None,
        Some(cc) => Some((cc.temp_m4 as int, cc.wind_m4 as int, cc.reported@)),
    }
}

/// Finds the first parameter with the given key.
pub fn lookup_param<'a>(ps: &'a Vec<Param>, k: &[u8]) -> (r: Option<&'a Vec<u8>>)
    ensures
        match r {
            Some(v) => lookup(ps@, k@) == Some(v@),
            None => lookup(ps@, k@) is None,
        },
{
    let n = ps.len();
    let mut i: usize = 0;
    proof {
        assert(ps@.skip(0) =~= ps@);
    }
    while i < n
        invariant
            i <= n == ps@.len(),
            lookup(ps@, k@) == lookup(ps@.skip(i as int), k@),
        decreases n - i,
    {
        proof {
            assert(ps@.skip(i as int)[0] == ps@[i as int]);
        }
        if bytes_eq(ps[i].key.as_slice(), k) {
            return Some(&ps[i].value);
        }
        proof {
            assert(ps@.skip(i as int).drop_first() =~= ps@.skip(i + 1));
        }
        i = i + 1;
    }
    proof {
        assert(ps@.skip(i as int).len() == 0);
    }
    None
}

/// Builds the state topic for a field suffix.
pub(crate) fn make_state_topic(suffix: &[u8]) -> (r: Vec<u8>)
    ensures
        r@ == state_topic(suffix@),
{
    proof {
        reveal_strlit("homeassistant/sensor/ambientWeather/");
        reveal_strlit("/state");
    }
    let mut out = lit("homeassistant/sensor/ambientWeather/");
    push_bytes(&mut out, suffix);
    let tail = lit("/state");
    push_bytes(&mut out, tail.as_slice());
    proof {
        assert(out@ =~= state_topic(suffix@));
    }
    out
}

/// Formats the apparent temperature in tenths of a degree.
fn heat_payload(deci: i64) -> (r: Vec<u8>)
    requires
        -10000000000000 <= deci <= 10000000000000,
    ensures
        r@ == spec_heat_payload(deci as int),
{
    let neg = deci < 0;
    let mag: u64 = if neg {
        (-deci) as u64
    } else {
        deci as u64
    };
    format_scaled(neg, mag, false, 1, 1)
}

/// Parses and formats the apparent temperature, when both inputs are there.
fn apparent_temperature(params: &Vec<Param>) -> (r: Option<Vec<u8>>)
    ensures
        match spec_heat_inputs(params@) {
            None => r is None,
            Some(tr) => match r {
                Some(pl) => pl@ == spec_heat_payload(spec_heat_index_deci(tr.0, tr.1)),
                None => false,
            },
        },
{
    proof {
        reveal_strlit("tempf");
        reveal_strlit("humidity");
    }
    let t_key = lit("tempf");
    let h_key = lit("humidity");
    let tv = match lookup_param(params, t_key.as_slice()) {
        Some(v) => v,
        None => {
            return None;
        },
    };
    let hv = match lookup_param(params, h_key.as_slice()) {
        Some(v) => v,
        None => {
            return None;
        },
    };
    let td = match parse_decimal(tv.as_slice()) {
        Some(d) => d,
        None => {
            return None;
        },
    };
    let hd = match parse_decimal(hv.as_slice()) {
        Some(d) => d,
        None => {
            return None;
        },
    };
    if td.m4 > 100000000 || hd.m4 > 100000000 {
        return None;
    }
    let t4 = signed_m4(&td);
    let r4 = signed_m4(&hd);
    let hi = heat_index_deci(t4, r4);
    Some(heat_payload(hi))
}

/// Gathers the wind-chill comparison, when its gate holds.
fn chill_check(params: &Vec<Param>) -> (r: Option<ChillCheck>)
    ensures
        chill_view(r) == spec_chill_check(params@),
{
    proof {
        reveal_strlit("tempf");
        reveal_strlit("windspeedmph");
        reveal_strlit("windchillf");
    }
    let t_key = lit("tempf");
    let w_key = lit("windspeedmph");
    let c_key = lit("windchillf");
    let tv = match lookup_param(params, t_key.as_slice()) {
        Some(v) => v,
        None => {
            return None;
        },
    };
    let wv = match lookup_param(params, w_key.as_slice()) {
        Some(v) => v,
        None => {
            return None;
        },
    };
    let rep = match lookup_param(params, c_key.as_slice()) {
        Some(v) => v,
        None => {
            return None;
        },
    };
    let td = match parse_decimal(tv.as_slice()) {
        Some(d) => d,
        None => {
            return None;
        },
    };
    let wd = match parse_decimal(wv.as_slice()) {
        Some(d) => d,
        None => {
            return None;
        },
    };
    let t4 = signed_m4(&td);
    let v4 = signed_m4(&wd);
    if t4 <= 500000 && v4 > 30000 {
        Some(ChillCheck { temp_m4: t4, wind_m4: v4, reported: to_vec_bytes(rep.as_slice()) })
    } else {
        None
    }
}

/// Processes one station report.
///
/// The request is rejected, with nothing published, exactly when the `ID`
/// and `PASSWORD` parameters do not equal the configured pair. Otherwise
/// every table field is parsed and formatted independently — a missing or
/// unparseable field is recorded as an issue and skipped, never failing
/// the request — the apparent temperature is derived when its inputs are
/// available, and the wind-chill comparison is gathered for diagnostics.
pub fn process_weather_update(
    params: &Vec<Param>,
    expected_id: &[u8],
    expected_password: &[u8],
) -> (r: Result<RequestOutcome, RequestError>)
    ensures
        r is Ok <==> creds_ok(params@, expected_id@, expected_password@),
        r matches Err(e) ==> e == RequestError::InvalidCredentials,
        r matches Ok(out) ==> samples_view(out.samples@) == samples_for(
            params@,
            spec_field_table(),
        ) + heat_samples(params@) && issues_view(out.issues@) == issues_for(
            params@,
            spec_field_table(),
        ) && chill_view(out.chill) == spec_chill_check(params@),
{
    proof {
        reveal_strlit("ID");
        reveal_strlit("PASSWORD");
        reveal_strlit("feelsLike");
    }
    let id_key = lit("ID");
    let pw_key = lit("PASSWORD");
    let id_ok = match lookup_param(params, id_key.as_slice()) {
        Some(v) => bytes_eq(v.as_slice(), expected_id),
        None => false,
    };
    let pw_ok = match lookup_param(params, pw_key.as_slice()) {
        Some(v) => bytes_eq(v.as_slice(), expected_password),
        None => false,
    };
    if !id_ok || !pw_ok {
        return Err(RequestError::InvalidCredentials);
    }

    let table = field_table();
    let ghost tblm = spec_field_table();
    proof {
        lemma_field_table_wf();
    }
    let mut samples: Vec<Sample> = Vec::new();
    let mut issues: Vec<FieldIssue> = Vec::new();
    let n = table.len();
    let mut i: usize = 0;
    while i < n
        invariant
            i <= n == table@.len(),
            table_model(table@) == tblm,
            tblm == spec_field_table(),
            forall|k: int| 0 <= k < tblm.len() ==> kind_wf(#[trigger] tblm[k].2),
            samples_view(samples@) == samples_for(params@, tblm.take(i as int)),
            issues_view(issues@) == issues_for(params@, tblm.take(i as int)),
        decreases n - i,
    {
        let f = &table[i];
        let ghost e = tblm[i as int];
        proof {
            assert(e == (f.source_key@, f.topic_suffix@, f.kind));
            assert(tblm.take(i + 1).drop_last() =~= tblm.take(i as int));
            assert(tblm.take(i + 1).last() == e);
        }
        match lookup_param(params, f.source_key.as_slice()) {
            None => {
                issues.push(
                    FieldIssue {
                        key: to_vec_bytes(f.source_key.as_slice()),
                        raw: Vec::new(),
                        kind: IssueKind::MissingField,
                    },
                );
                proof {
                    assert(issues_view(issues@) =~= issues_for(params@, tblm.take(i + 1)));
                    assert(samples_view(samples@) =~= samples_for(params@, tblm.take(i + 1)));
                }
            },
            Some(v) => {
                let payload_opt: Option<Vec<u8>> = match f.kind {
                    ValueKind::Integer => match parse_int(v.as_slice()) {
                        Some(w) => Some(format_int(w)),
                        None => None,
                    },
                    ValueKind::Decimal(p) => match parse_decimal(v.as_slice()) {
                        Some(d) => Some(format_decimal(&d, p)),
                        None => None,
                    },
                    ValueKind::PressureInHg => match parse_decimal(v.as_slice()) {
                        Some(d) => Some(pressure_hpa_payload(&d)),
                        None => None,
                    },
                };
                proof {
                    assert(match payload_opt {
                        Some(pl) => spec_field_payload(v@, e.2) == Some(pl@),
                        None => spec_field_payload(v@, e.2) is None,
                    });
                }
                match payload_opt {
                    Some(pl) => {
                        let topic = make_state_topic(f.topic_suffix.as_slice());
                        samples.push(Sample { topic, payload: pl, retained: false });
                        proof {
                            assert(samples_view(samples@) =~= samples_for(
                                params@,
                                tblm.take(i + 1),
                            ));
                            assert(issues_view(issues@) =~= issues_for(params@, tblm.take(i + 1)));
                        }
                    },
                    None => {
                        issues.push(
                            FieldIssue {
                                key: to_vec_bytes(f.source_key.as_slice()),
                                raw: to_vec_bytes(v.as_slice()),
                                kind: IssueKind::UnparseableValue,
                            },
                        );
                        proof {
                            assert(issues_view(issues@) =~= issues_for(params@, tblm.take(i + 1)));
                            assert(samples_view(samples@) =~= samples_for(
                                params@,
                                tblm.take(i + 1),
                            ));
                        }
                    },
                }
            },
        }
        i = i + 1;
    }
    proof {
        assert(tblm.take(tblm.len() as int) =~= tblm);
    }

    match apparent_temperature(params) {
        Some(pl) => {
            let suffix = lit("feelsLike");
            let topic = make_state_topic(suffix.as_slice());
            samples.push(Sample { topic, payload: pl, retained: false });
            proof {
                assert(samples_view(samples@) =~= samples_for(params@, tblm) + heat_samples(
                    params@,
                ));
            }
        },
        None => {
            proof {
                assert(heat_samples(params@) =~= Seq::<(Seq<u8>, Seq<u8>, bool)>::empty());
                assert(samples_view(samples@) =~= samples_for(params@, tblm) + heat_samples(
                    params@,
                ));
            }
        },
    }

    let chill = chill_check(params);
    Ok(RequestOutcome { samples, issues, chill })
}

} // verus!
