//! Request-level behavior: credentials, the field pipeline, the derived
//! metrics, and per-field failure isolation.

use ambw_mqtt::pipeline::{
    process_weather_update, IssueKind, Param, RequestError, RequestOutcome,
};

fn param(key: &[u8], value: &[u8]) -> Param {
    Param {
        key: key.to_vec(),
        value: value.to_vec(),
    }
}

fn full_report() -> Vec<Param> {
    vec![
        param(b"ID", b"local"),
        param(b"PASSWORD", b"key"),
        param(b"tempf", b"90.5"),
        param(b"humidity", b"50"),
        param(b"dewptf", b"60.2"),
        param(b"windchillf", b"90.5"),
        param(b"winddir", b"270"),
        param(b"windspeedmph", b"4.5"),
        param(b"windgustmph", b"7.25"),
        param(b"rainin", b"0.1"),
        param(b"dailyrainin", b"0.25"),
        param(b"weeklyrainin", b"1"),
        param(b"monthlyrainin", b"2.5"),
        param(b"totalrainin", b"30.125"),
        param(b"solarradiation", b"512.7"),
        param(b"UV", b"6"),
        param(b"indoortempf", b"71.3"),
        param(b"indoorhumidity", b"40"),
        param(b"absbaromin", b"29.92"),
        param(b"baromin", b"30.01"),
    ]
}

fn run(params: &Vec<Param>) -> Result<RequestOutcome, RequestError> {
    process_weather_update(params, b"local", b"key")
}

#[test]
fn rejects_missing_credentials() {
    let params = vec![param(b"tempf", b"70.0")];
    assert!(matches!(run(&params), Err(RequestError::InvalidCredentials)));
}

#[test]
fn rejects_wrong_credentials() {
    let mut params = full_report();
    params[1] = param(b"PASSWORD", b"wrong");
    assert!(matches!(run(&params), Err(RequestError::InvalidCredentials)));
    let mut params = full_report();
    params[0] = param(b"ID", b"other");
    assert!(matches!(run(&params), Err(RequestError::InvalidCredentials)));
}

#[test]
fn full_report_publishes_everything() {
    let out = run(&full_report()).unwrap();
    // 18 table fields plus the apparent temperature.
    assert_eq!(out.samples.len(), 19);
    assert!(out.issues.is_empty());
    for s in &out.samples {
        assert!(!s.retained);
    }
    assert_eq!(
        out.samples[0].topic,
        b"homeassistant/sensor/ambientWeather/temperature/state".to_vec()
    );
    assert_eq!(out.samples[0].payload, b"90.5".to_vec());
    assert_eq!(
        out.samples[1].topic,
        b"homeassistant/sensor/ambientWeather/humidity/state".to_vec()
    );
    assert_eq!(out.samples[1].payload, b"50".to_vec());
    assert_eq!(out.samples[5].payload, b"4.50".to_vec());
    assert_eq!(out.samples[12].payload, b"512.7".to_vec());
    assert_eq!(
        out.samples[16].topic,
        b"homeassistant/sensor/ambientWeather/pressure/state".to_vec()
    );
    assert_eq!(out.samples[16].payload, b"1013.1".to_vec());
    assert_eq!(
        out.samples[17].topic,
        b"homeassistant/sensor/ambientWeather/relativePressure/state".to_vec()
    );
    assert_eq!(out.samples[17].payload, b"1016.1".to_vec());
    assert_eq!(
        out.samples[18].topic,
        b"homeassistant/sensor/ambientWeather/feelsLike/state".to_vec()
    );
}

#[test]
fn unparseable_field_is_isolated() {
    let mut params = full_report();
    params[2] = param(b"tempf", b"abc");
    let out = run(&params).unwrap();
    // The temperature field and the apparent temperature are skipped;
    // every other field is still published.
    assert_eq!(out.samples.len(), 17);
    assert_eq!(out.issues.len(), 1);
    assert_eq!(out.issues[0].key, b"tempf".to_vec());
    assert_eq!(out.issues[0].raw, b"abc".to_vec());
    assert_eq!(out.issues[0].kind, IssueKind::UnparseableValue);
    assert_eq!(
        out.samples[0].topic,
        b"homeassistant/sensor/ambientWeather/humidity/state".to_vec()
    );
    assert_eq!(
        out.samples[16].topic,
        b"homeassistant/sensor/ambientWeather/relativePressure/state".to_vec()
    );
}

#[test]
fn missing_field_is_isolated() {
    let params: Vec<Param> = full_report()
        .into_iter()
        .filter(|p| p.key != b"winddir".to_vec())
        .collect();
    let out = run(&params).unwrap();
    assert_eq!(out.samples.len(), 18);
    assert_eq!(out.issues.len(), 1);
    assert_eq!(out.issues[0].key, b"winddir".to_vec());
    assert!(out.issues[0].raw.is_empty());
    assert_eq!(out.issues[0].kind, IssueKind::MissingField);
}

#[test]
fn apparent_temperature_below_eighty() {
    let params = vec![
        param(b"ID", b"local"),
        param(b"PASSWORD", b"key"),
        param(b"tempf", b"70"),
        param(b"humidity", b"50"),
    ];
    let out = run(&params).unwrap();
    let feels = out
        .samples
        .iter()
        .find(|s| s.topic == b"homeassistant/sensor/ambientWeather/feelsLike/state".to_vec())
        .unwrap();
    assert_eq!(feels.payload, b"70.0".to_vec());
}

fn feels_like_payload(tempf: &[u8], humidity: &[u8]) -> Vec<u8> {
    let params = vec![
        param(b"ID", b"local"),
        param(b"PASSWORD", b"key"),
        param(b"tempf", tempf),
        param(b"humidity", humidity),
    ];
    let out = run(&params).unwrap();
    out.samples
        .iter()
        .find(|s| s.topic == b"homeassistant/sensor/ambientWeather/feelsLike/state".to_vec())
        .unwrap()
        .payload
        .clone()
}

#[test]
fn apparent_temperature_rothfusz() {
    // T=90, RH=50: Rothfusz regression, no correction band: 94.5969412.
    assert_eq!(feels_like_payload(b"90", b"50"), b"94.6".to_vec());
}

#[test]
fn apparent_temperature_low_humidity_band() {
    // T=85, RH=10: the low-humidity term subtracts 0.481 from 81.881.
    assert_eq!(feels_like_payload(b"85", b"10"), b"81.4".to_vec());
}

#[test]
fn apparent_temperature_high_humidity_band() {
    // T=82, RH=90: the high-humidity term adds 0.5 to 91.492.
    assert_eq!(feels_like_payload(b"82", b"90"), b"92.0".to_vec());
}

#[test]
fn apparent_temperature_needs_both_inputs() {
    let params = vec![
        param(b"ID", b"local"),
        param(b"PASSWORD", b"key"),
        param(b"tempf", b"90"),
    ];
    let out = run(&params).unwrap();
    assert!(out
        .samples
        .iter()
        .all(|s| s.topic != b"homeassistant/sensor/ambientWeather/feelsLike/state".to_vec()));
}

#[test]
fn wind_chill_comparison_gate() {
    let params = vec![
        param(b"ID", b"local"),
        param(b"PASSWORD", b"key"),
        param(b"tempf", b"40.0"),
        param(b"windspeedmph", b"10.0"),
        param(b"windchillf", b"33.1"),
    ];
    let out = run(&params).unwrap();
    let chill = out.chill.unwrap();
    assert_eq!(chill.temp_m4, 400000);
    assert_eq!(chill.wind_m4, 100000);
    assert_eq!(chill.reported, b"33.1".to_vec());
    // Only the three raw fields are published; the computed comparison is not.
    assert_eq!(out.samples.len(), 3);
    let reported = out
        .samples
        .iter()
        .find(|s| s.topic == b"homeassistant/sensor/ambientWeather/windChill/state".to_vec())
        .unwrap();
    assert_eq!(reported.payload, b"33.1".to_vec());
}

#[test]
fn wind_chill_gate_respects_bounds() {
    // Wind speed exactly 3.0 is outside the formula's domain.
    let params = vec![
        param(b"ID", b"local"),
        param(b"PASSWORD", b"key"),
        param(b"tempf", b"40.0"),
        param(b"windspeedmph", b"3.0"),
        param(b"windchillf", b"33.1"),
    ];
    assert!(run(&params).unwrap().chill.is_none());
    // Temperature above 50 is outside the formula's domain.
    let params = vec![
        param(b"ID", b"local"),
        param(b"PASSWORD", b"key"),
        param(b"tempf", b"50.1"),
        param(b"windspeedmph", b"10.0"),
        param(b"windchillf", b"33.1"),
    ];
    assert!(run(&params).unwrap().chill.is_none());
    // No station-reported wind chill, no comparison.
    let params = vec![
        param(b"ID", b"local"),
        param(b"PASSWORD", b"key"),
        param(b"tempf", b"40.0"),
        param(b"windspeedmph", b"10.0"),
    ];
    assert!(run(&params).unwrap().chill.is_none());
}
